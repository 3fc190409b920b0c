//! Names of standard PTP operation and property codes. They are the same on every PTP camera; vendor
//! codes are not named here.

use vstd::prelude::*;

verus! {

/// The canonical name of a standard PTP operation code.
pub open spec fn operation_name(code: u16) -> Option<Seq<char>> {
    match code {
        0x1001 => Some("GetDeviceInfo"@),
        0x1002 => Some("OpenSession"@),
        0x1003 => Some("CloseSession"@),
        0x1004 => Some("GetStorageIDs"@),
        0x1005 => Some("GetStorageInfo"@),
        0x1006 => Some("GetNumObjects"@),
        0x1007 => Some("GetObjectHandles"@),
        0x1008 => Some("GetObjectInfo"@),
        0x1009 => Some("GetObject"@),
        0x100a => Some("GetThumb"@),
        0x100b => Some("DeleteObject"@),
        0x100c => Some("SendObjectInfo"@),
        0x100d => Some("SendObject"@),
        0x100e => Some("InitiateCapture"@),
        0x100f => Some("FormatStore"@),
        0x1010 => Some("ResetDevice"@),
        0x1011 => Some("SelfTest"@),
        0x1012 => Some("SetObjectProtection"@),
        0x1013 => Some("PowerDown"@),
        0x1014 => Some("GetDevicePropDesc"@),
        0x1015 => Some("GetDevicePropValue"@),
        0x1016 => Some("SetDevicePropValue"@),
        0x1017 => Some("ResetDevicePropValue"@),
        0x1018 => Some("TerminateOpenCapture"@),
        0x1019 => Some("MoveObject"@),
        0x101a => Some("CopyObject"@),
        0x101b => Some("GetPartialObject"@),
        0x101c => Some("InitiateOpenCapture"@),
        _ => None,
    }
}

/// The canonical name of a standard PTP operation code, if known.
pub fn standard_operation_name(code: u16) -> (r: Option<&'static str>)
    ensures
        match r {
            Some(s) => operation_name(code) == Some(s@),
            None => operation_name(code) is None,
        },
{
    match code {
        0x1001 => Some("GetDeviceInfo"),
        0x1002 => Some("OpenSession"),
        0x1003 => Some("CloseSession"),
        0x1004 => Some("GetStorageIDs"),
        0x1005 => Some("GetStorageInfo"),
        0x1006 => Some("GetNumObjects"),
        0x1007 => Some("GetObjectHandles"),
        0x1008 => Some("GetObjectInfo"),
        0x1009 => Some("GetObject"),
        0x100a => Some("GetThumb"),
        0x100b => Some("DeleteObject"),
        0x100c => Some("SendObjectInfo"),
        0x100d => Some("SendObject"),
        0x100e => Some("InitiateCapture"),
        0x100f => Some("FormatStore"),
        0x1010 => Some("ResetDevice"),
        0x1011 => Some("SelfTest"),
        0x1012 => Some("SetObjectProtection"),
        0x1013 => Some("PowerDown"),
        0x1014 => Some("GetDevicePropDesc"),
        0x1015 => Some("GetDevicePropValue"),
        0x1016 => Some("SetDevicePropValue"),
        0x1017 => Some("ResetDevicePropValue"),
        0x1018 => Some("TerminateOpenCapture"),
        0x1019 => Some("MoveObject"),
        0x101a => Some("CopyObject"),
        0x101b => Some("GetPartialObject"),
        0x101c => Some("InitiateOpenCapture"),
        _ => None,
    }
}

/// The canonical name of a standard PTP device-property code.
pub open spec fn property_name(code: u16) -> Option<Seq<char>> {
    match code {
        0x5001 => Some("BatteryLevel"@),
        0x5002 => Some("FunctionalMode"@),
        0x5003 => Some("ImageSize"@),
        0x5004 => Some("CompressionSetting"@),
        0x5005 => Some("WhiteBalance"@),
        0x5006 => Some("RGBGain"@),
        0x5007 => Some("FNumber"@),
        0x5008 => Some("FocalLength"@),
        0x5009 => Some("FocusDistance"@),
        0x500a => Some("FocusMode"@),
        0x500b => Some("ExposureMeteringMode"@),
        0x500c => Some("FlashMode"@),
        0x500d => Some("ExposureTime"@),
        0x500e => Some("ExposureProgramMode"@),
        0x500f => Some("ExposureIndex"@),
        0x5010 => Some("ExposureBiasCompensation"@),
        0x5011 => Some("DateTime"@),
        0x5012 => Some("CaptureDelay"@),
        0x5013 => Some("StillCaptureMode"@),
        0x5014 => Some("Contrast"@),
        0x5015 => Some("Sharpness"@),
        0x5016 => Some("DigitalZoom"@),
        0x5017 => Some("EffectMode"@),
        0x5018 => Some("BurstNumber"@),
        0x5019 => Some("BurstInterval"@),
        0x501a => Some("TimelapseNumber"@),
        0x501b => Some("TimelapseInterval"@),
        0x501c => Some("FocusMeteringMode"@),
        0x501d => Some("UploadURL"@),
        0x501e => Some("Artist"@),
        0x501f => Some("CopyrightInfo"@),
        _ => None,
    }
}

/// The canonical name of a standard PTP device-property code, if known.
pub fn standard_property_name(code: u16) -> (r: Option<&'static str>)
    ensures
        match r {
            Some(s) => property_name(code) == Some(s@),
            None => property_name(code) is None,
        },
{
    match code {
        0x5001 => Some("BatteryLevel"),
        0x5002 => Some("FunctionalMode"),
        0x5003 => Some("ImageSize"),
        0x5004 => Some("CompressionSetting"),
        0x5005 => Some("WhiteBalance"),
        0x5006 => Some("RGBGain"),
        0x5007 => Some("FNumber"),
        0x5008 => Some("FocalLength"),
        0x5009 => Some("FocusDistance"),
        0x500a => Some("FocusMode"),
        0x500b => Some("ExposureMeteringMode"),
        0x500c => Some("FlashMode"),
        0x500d => Some("ExposureTime"),
        0x500e => Some("ExposureProgramMode"),
        0x500f => Some("ExposureIndex"),
        0x5010 => Some("ExposureBiasCompensation"),
        0x5011 => Some("DateTime"),
        0x5012 => Some("CaptureDelay"),
        0x5013 => Some("StillCaptureMode"),
        0x5014 => Some("Contrast"),
        0x5015 => Some("Sharpness"),
        0x5016 => Some("DigitalZoom"),
        0x5017 => Some("EffectMode"),
        0x5018 => Some("BurstNumber"),
        0x5019 => Some("BurstInterval"),
        0x501a => Some("TimelapseNumber"),
        0x501b => Some("TimelapseInterval"),
        0x501c => Some("FocusMeteringMode"),
        0x501d => Some("UploadURL"),
        0x501e => Some("Artist"),
        0x501f => Some("CopyrightInfo"),
        _ => None,
    }
}

} // verus!
