use hid_bpf_uclogic::sysfs::{
    firmware_supported, get_subsystem, hid_device_id, is_vendor_descriptor, parse_hex_i32,
    parse_hex_u32, property_trim, usb_supported,
};

#[test]
fn supported_usb_device() {
    assert!(usb_supported(Some("usb"), Some("256c"), Some("0064")));
    assert!(usb_supported(Some("usb"), Some("256C"), Some("+64")));
    assert!(!usb_supported(Some("hid"), Some("256c"), Some("0064")));
    assert!(!usb_supported(None, Some("256c"), Some("0064")));
    assert!(!usb_supported(Some("usb"), None, Some("0064")));
    assert!(!usb_supported(Some("usb"), Some("256c"), Some("0065")));
    assert!(!usb_supported(Some("usb"), Some("256c "), Some("0064")));
}

#[test]
fn hex_numbers() {
    assert_eq!(parse_hex_u32("ffffffff"), Some(u32::MAX));
    assert_eq!(parse_hex_u32("100000000"), None);
    assert_eq!(parse_hex_u32(""), None);
    assert_eq!(parse_hex_u32("+"), None);
    assert_eq!(parse_hex_u32("-1"), None);
    assert_eq!(parse_hex_i32("-80000000"), Some(i32::MIN));
    assert_eq!(parse_hex_i32("7fffffff"), Some(i32::MAX));
    assert_eq!(parse_hex_i32("80000000"), None);
    assert_eq!(parse_hex_i32("-a"), Some(-10));
}

#[test]
fn hid_ids() {
    assert_eq!(hid_device_id("0003:256C:0064.000A"), Some(10));
    assert_eq!(hid_device_id("001F"), Some(31));
    assert_eq!(hid_device_id("0003:256C:0064."), None);
    assert_eq!(hid_device_id("0003:256C:0064.000A "), Some(10));
    assert_eq!(hid_device_id("0003:256C:0064.\t1f\n"), Some(31));
}

#[test]
fn subsystem_names() {
    assert_eq!(get_subsystem("../../../../bus/usb"), Some("usb".to_owned()));
    assert_eq!(get_subsystem("hid"), Some("hid".to_owned()));
    assert_eq!(get_subsystem("../bus/"), Some("bus".to_owned()));
    assert_eq!(get_subsystem("a/b/."), Some("b".to_owned()));
    assert_eq!(get_subsystem("a//b//"), Some("b".to_owned()));
    assert_eq!(get_subsystem(".."), None);
    assert_eq!(get_subsystem("a/.."), None);
    assert_eq!(get_subsystem("/"), None);
    assert_eq!(get_subsystem(""), None);
    assert_eq!(get_subsystem("."), None);
}

#[test]
fn properties_are_trimmed() {
    assert_eq!(property_trim(Some("256c\n")), Some("256c".to_owned()));
    assert_eq!(property_trim(Some(" \tHuion\u{a0}\n")), Some("Huion".to_owned()));
    assert_eq!(property_trim(None), None);
}

#[test]
fn supported_firmware() {
    assert!(firmware_supported("GM001_T207_210524"));
    assert!(firmware_supported("HUION_T18C_211220"));
    assert!(!firmware_supported("HUION_T18C_211221"));
}

#[test]
fn vendor_descriptor() {
    assert!(is_vendor_descriptor(&[0x06, 0x00, 0xff, 0x09]));
    assert!(!is_vendor_descriptor(&[0x05, 0x01, 0x09]));
    assert!(!is_vendor_descriptor(&[0x06, 0x00]));
}
