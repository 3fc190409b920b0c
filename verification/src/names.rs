//! How what is named is spelled.

use vstd::prelude::*;

verus! {

/// The names of the roles of an action.
pub proof fn roles_of_actions_are_spelled(e: crate::observation::ActionRole)
    ensures
        e is Initiator ==> crate::action::action_role_name(e) == "initiator"@,
        e is Responder ==> crate::action::action_role_name(e) == "responder"@,
{
}

/// The names of the kinds of parameters.
pub proof fn kinds_of_parameters_are_spelled(e: crate::action::ActionCatalogParameterKind)
    ensures
        e is U32 ==> crate::action::kind_name(e) == "u32"@,
        e is U64 ==> crate::action::kind_name(e) == "u64"@,
{
}

/// The codes of refusals.
pub proof fn refusals_are_coded(e: crate::action::Refusal)
    ensures
        e is StaleRevision ==> crate::action::refusal_code(e) == "staleCatalogRevision"@,
        e is UnknownConnection ==> crate::action::refusal_code(e) == "unknownConnection"@,
        e is UnknownAction ==> crate::action::refusal_code(e) == "unknownAction"@,
        e is WrongMode ==> crate::action::refusal_code(e) == "wrongMode"@,
        e is WrongRole ==> crate::action::refusal_code(e) == "wrongRole"@,
        e is DuplicateParameter ==> crate::action::refusal_code(e) == "duplicateParameter"@,
        e is MissingParameter ==> crate::action::refusal_code(e) == "missingParameter"@,
        e is ExtraParameter ==> crate::action::refusal_code(e) == "extraParameter"@,
        e is InvalidParameter ==> crate::action::refusal_code(e) == "invalidParameter"@,
{
}

/// The tokens of the roles of an activity.
pub proof fn display_roles_are_spelled(e: crate::activity::ConnectionActivityDisplayRole)
    ensures
        e is Connecting ==> crate::activity::role_token(e) == "connecting"@,
        e is WaitingForCamera ==> crate::activity::role_token(e) == "waitingForCamera"@,
        e is ConfirmingPairing ==> crate::activity::role_token(e) == "confirmingPairing"@,
        e is PreparingConnection ==> crate::activity::role_token(e) == "preparingConnection"@,
        e is StartingNetwork ==> crate::activity::role_token(e) == "startingNetwork"@,
        e is JoiningNetwork ==> crate::activity::role_token(e) == "joiningNetwork"@,
        e is OpeningSession ==> crate::activity::role_token(e) == "openingSession"@,
{
}

/// The names of the statuses of proposal records.
pub proof fn statuses_of_records_are_spelled(e: crate::generate::ProposalRecordStatus)
    ensures
        e is Proposed ==> crate::generate::write::record_status_name(e) == "proposed"@,
        e is EvidenceOnly ==> crate::generate::write::record_status_name(e) == "evidenceOnly"@,
{
}

/// The names of the statuses of validation lines.
pub proof fn statuses_of_lines_are_spelled(e: crate::generate::ValidationStatus)
    ensures
        e is Accepted ==> crate::generate::write::status_name(e) == "accepted"@,
        e is Rejected ==> crate::generate::write::status_name(e) == "rejected"@,
{
}

/// The verbs of steps.
pub proof fn steps_are_spelled(e: crate::index::types::Step)
    ensures
        e is BleConnect ==> crate::index::types::verb_of(e) == "bleConnect"@,
        e is BleAwaitDisconnect ==> crate::index::types::verb_of(e) == "bleAwaitDisconnect"@,
        e is BleRequestMtu ==> crate::index::types::verb_of(e) == "bleRequestMtu"@,
        e is BleDiscoverServices ==> crate::index::types::verb_of(e) == "bleDiscoverServices"@,
        e is BleRead ==> crate::index::types::verb_of(e) == "bleRead"@,
        e is BleWrite ==> crate::index::types::verb_of(e) == "bleWrite"@,
        e is BleSubscribe ==> crate::index::types::verb_of(e) == "bleSubscribe"@,
        e is BleNotify ==> crate::index::types::verb_of(e) == "bleNotify"@,
        e is BleAwaitUntil ==> crate::index::types::verb_of(e) == "bleAwaitUntil"@,
        e is BleWriteChunk ==> crate::index::types::verb_of(e) == "bleWriteChunk"@,
        e is Acquire ==> crate::index::types::verb_of(e) == "acquire"@,
        e is AcquireFirmware ==> crate::index::types::verb_of(e) == "acquireFirmware"@,
        e is If ==> crate::index::types::verb_of(e) == "if"@,
        e is Retry ==> crate::index::types::verb_of(e) == "retry"@,
        e is BleDelay ==> crate::index::types::verb_of(e) == "bleDelay"@,
        e is NikonLssAuthenticate ==> crate::index::types::verb_of(e) == "nikonLssAuthenticate"@,
        e is NikonLssReadConnectionConfiguration ==> crate::index::types::verb_of(e) == "nikonLssReadConnectionConfiguration"@,
        e is BlePeripheralName ==> crate::index::types::verb_of(e) == "blePeripheralName"@,
{
}

/// The tokens of encodings.
pub proof fn encodings_are_spelled(e: crate::index::types::Encoding)
    ensures
        e is Utf8 ==> crate::index::types::encoding_token(e) == "utf8"@,
        e is Utf8Cstring ==> crate::index::types::encoding_token(e) == "utf8-cstring"@,
        e is Ascii ==> crate::index::types::encoding_token(e) == "ascii"@,
        e is Bytes ==> crate::index::types::encoding_token(e) == "bytes"@,
        e is BytesRaw ==> crate::index::types::encoding_token(e) == "bytes-raw"@,
        e is BytesLe ==> crate::index::types::encoding_token(e) == "bytes-le"@,
        e is BytesBe ==> crate::index::types::encoding_token(e) == "bytes-be"@,
        e is U8 ==> crate::index::types::encoding_token(e) == "u8"@,
        e is U32 ==> crate::index::types::encoding_token(e) == "u32"@,
        e is U16Le ==> crate::index::types::encoding_token(e) == "u16-le"@,
        e is U16Be ==> crate::index::types::encoding_token(e) == "u16-be"@,
        e is U32Le ==> crate::index::types::encoding_token(e) == "u32-le"@,
        e is U32Be ==> crate::index::types::encoding_token(e) == "u32-be"@,
{
}

/// The tokens of comparisons.
pub proof fn comparisons_are_spelled(e: crate::index::types::PredicateOp)
    ensures
        e is Eq ==> crate::index::types::predicate_token(e) == "eq"@,
        e is Ne ==> crate::index::types::predicate_token(e) == "ne"@,
        e is Gt ==> crate::index::types::predicate_token(e) == "gt"@,
        e is Gte ==> crate::index::types::predicate_token(e) == "gte"@,
        e is Lt ==> crate::index::types::predicate_token(e) == "lt"@,
        e is Lte ==> crate::index::types::predicate_token(e) == "lte"@,
        e is In ==> crate::index::types::predicate_token(e) == "in"@,
{
}

/// The fields of socket roles.
pub proof fn socket_fields_are_spelled(e: crate::model::SocketRole)
    ensures
        e is Command ==> crate::validate::connections::role_field(e) == "command"@,
        e is Event ==> crate::validate::connections::role_field(e) == "event"@,
        e is LiveView ==> crate::validate::connections::role_field(e) == "liveView"@,
{
}

/// The names of the roles of controls.
pub proof fn control_roles_are_spelled(e: crate::model::ControlRole)
    ensures
        e is Iso ==> crate::validate::connections::control_role_text(e) == "Iso"@,
        e is ShutterSpeed ==> crate::validate::connections::control_role_text(e) == "ShutterSpeed"@,
        e is Aperture ==> crate::validate::connections::control_role_text(e) == "Aperture"@,
        e is ExposureBias ==> crate::validate::connections::control_role_text(e) == "ExposureBias"@,
        e is FocusArea ==> crate::validate::connections::control_role_text(e) == "FocusArea"@,
{
}

/// The labels of verbs in paths.
pub proof fn verbs_are_labelled(e: crate::model::ActionVerb)
    ensures
        e is Shutter ==> crate::validate::entries::verb_label(e) == "Shutter"@,
        e is EnumerateObjects ==> crate::validate::entries::verb_label(e) == "EnumerateObjects"@,
        e is GetObjectInfo ==> crate::validate::entries::verb_label(e) == "GetObjectInfo"@,
        e is GetThumb ==> crate::validate::entries::verb_label(e) == "GetThumb"@,
        e is GetObject ==> crate::validate::entries::verb_label(e) == "GetObject"@,
        e is DeleteObject ==> crate::validate::entries::verb_label(e) == "DeleteObject"@,
        e is AutofocusLock ==> crate::validate::entries::verb_label(e) == "AutofocusLock"@,
        e is AutofocusRelease ==> crate::validate::entries::verb_label(e) == "AutofocusRelease"@,
        e is ImportObjects ==> crate::validate::entries::verb_label(e) == "ImportObjects"@,
        e is ReadDeviceInfo ==> crate::validate::entries::verb_label(e) == "ReadDeviceInfo"@,
        e is StartLiveView ==> crate::validate::entries::verb_label(e) == "StartLiveView"@,
        e is PollLiveView ==> crate::validate::entries::verb_label(e) == "PollLiveView"@,
        e is StopLiveView ==> crate::validate::entries::verb_label(e) == "StopLiveView"@,
        e is Keepalive ==> crate::validate::entries::verb_label(e) == "Keepalive"@,
{
}

/// The names of socket roles.
pub proof fn socket_roles_are_spelled(e: crate::model::SocketRole)
    ensures
        e is Command ==> crate::validate::steps::role_text(e) == "Command"@,
        e is Event ==> crate::validate::steps::role_text(e) == "Event"@,
        e is LiveView ==> crate::validate::steps::role_text(e) == "LiveView"@,
{
}

/// The names of the standard operations. Other codes have none.
pub proof fn standard_operations_are_named(code: u16)
    ensures
        crate::std_names::operation_name(0x1001) == Some("GetDeviceInfo"@),
        crate::std_names::operation_name(0x1002) == Some("OpenSession"@),
        crate::std_names::operation_name(0x1003) == Some("CloseSession"@),
        crate::std_names::operation_name(0x1004) == Some("GetStorageIDs"@),
        crate::std_names::operation_name(0x1005) == Some("GetStorageInfo"@),
        crate::std_names::operation_name(0x1006) == Some("GetNumObjects"@),
        crate::std_names::operation_name(0x1007) == Some("GetObjectHandles"@),
        crate::std_names::operation_name(0x1008) == Some("GetObjectInfo"@),
        crate::std_names::operation_name(0x1009) == Some("GetObject"@),
        crate::std_names::operation_name(0x100a) == Some("GetThumb"@),
        crate::std_names::operation_name(0x100b) == Some("DeleteObject"@),
        crate::std_names::operation_name(0x100c) == Some("SendObjectInfo"@),
        crate::std_names::operation_name(0x100d) == Some("SendObject"@),
        crate::std_names::operation_name(0x100e) == Some("InitiateCapture"@),
        crate::std_names::operation_name(0x100f) == Some("FormatStore"@),
        crate::std_names::operation_name(0x1010) == Some("ResetDevice"@),
        crate::std_names::operation_name(0x1011) == Some("SelfTest"@),
        crate::std_names::operation_name(0x1012) == Some("SetObjectProtection"@),
        crate::std_names::operation_name(0x1013) == Some("PowerDown"@),
        crate::std_names::operation_name(0x1014) == Some("GetDevicePropDesc"@),
        crate::std_names::operation_name(0x1015) == Some("GetDevicePropValue"@),
        crate::std_names::operation_name(0x1016) == Some("SetDevicePropValue"@),
        crate::std_names::operation_name(0x1017) == Some("ResetDevicePropValue"@),
        crate::std_names::operation_name(0x1018) == Some("TerminateOpenCapture"@),
        crate::std_names::operation_name(0x1019) == Some("MoveObject"@),
        crate::std_names::operation_name(0x101a) == Some("CopyObject"@),
        crate::std_names::operation_name(0x101b) == Some("GetPartialObject"@),
        crate::std_names::operation_name(0x101c) == Some("InitiateOpenCapture"@),
        code < 0x1001 || code > 0x101c ==> crate::std_names::operation_name(code) is None,
{
}

/// The names of the standard properties. Other codes have none.
pub proof fn standard_properties_are_named(code: u16)
    ensures
        crate::std_names::property_name(0x5001) == Some("BatteryLevel"@),
        crate::std_names::property_name(0x5002) == Some("FunctionalMode"@),
        crate::std_names::property_name(0x5003) == Some("ImageSize"@),
        crate::std_names::property_name(0x5004) == Some("CompressionSetting"@),
        crate::std_names::property_name(0x5005) == Some("WhiteBalance"@),
        crate::std_names::property_name(0x5006) == Some("RGBGain"@),
        crate::std_names::property_name(0x5007) == Some("FNumber"@),
        crate::std_names::property_name(0x5008) == Some("FocalLength"@),
        crate::std_names::property_name(0x5009) == Some("FocusDistance"@),
        crate::std_names::property_name(0x500a) == Some("FocusMode"@),
        crate::std_names::property_name(0x500b) == Some("ExposureMeteringMode"@),
        crate::std_names::property_name(0x500c) == Some("FlashMode"@),
        crate::std_names::property_name(0x500d) == Some("ExposureTime"@),
        crate::std_names::property_name(0x500e) == Some("ExposureProgramMode"@),
        crate::std_names::property_name(0x500f) == Some("ExposureIndex"@),
        crate::std_names::property_name(0x5010) == Some("ExposureBiasCompensation"@),
        crate::std_names::property_name(0x5011) == Some("DateTime"@),
        crate::std_names::property_name(0x5012) == Some("CaptureDelay"@),
        crate::std_names::property_name(0x5013) == Some("StillCaptureMode"@),
        crate::std_names::property_name(0x5014) == Some("Contrast"@),
        crate::std_names::property_name(0x5015) == Some("Sharpness"@),
        crate::std_names::property_name(0x5016) == Some("DigitalZoom"@),
        crate::std_names::property_name(0x5017) == Some("EffectMode"@),
        crate::std_names::property_name(0x5018) == Some("BurstNumber"@),
        crate::std_names::property_name(0x5019) == Some("BurstInterval"@),
        crate::std_names::property_name(0x501a) == Some("TimelapseNumber"@),
        crate::std_names::property_name(0x501b) == Some("TimelapseInterval"@),
        crate::std_names::property_name(0x501c) == Some("FocusMeteringMode"@),
        crate::std_names::property_name(0x501d) == Some("UploadURL"@),
        crate::std_names::property_name(0x501e) == Some("Artist"@),
        crate::std_names::property_name(0x501f) == Some("CopyrightInfo"@),
        code < 0x5001 || code > 0x501f ==> crate::std_names::property_name(code) is None,
{
}

} // verus!
