//! The names of standard codes.

use camera_config::std_names::{standard_operation_name, standard_property_name};

#[test]
fn names_standard_codes_only() {
    assert_eq!(standard_property_name(0x5007), Some("FNumber"));
    assert_eq!(standard_property_name(0x500d), Some("ExposureTime"));
    assert_eq!(standard_operation_name(0x1014), Some("GetDevicePropDesc"));
    assert_eq!(standard_property_name(0xd02a), None);
    assert_eq!(standard_operation_name(0x9054), None);
}
