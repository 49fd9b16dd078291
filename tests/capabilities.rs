use hid_bpf_uclogic::capabilities::{CapabilityKey, DeviceInfo, DeviceInfoError};
use hid_bpf_uclogic::descriptor::ParsedDeviceInfo;

// 18 bytes: length, x_max 50800, y_max 31750, pressure 8191, resolution 5080, 13 buttons
const MAGIC: &str = "120070c600067c00ff1fd813000d00000000";

fn info_text(magic: &str) -> String {
    format!("HUION_FIRMWARE_ID=\"HUION_T18C_211220\"\nHUION_MAGIC_BYTES=\"{magic}\"\n")
}

fn dims(magic: Vec<u8>) -> Result<ParsedDeviceInfo, DeviceInfoError> {
    DeviceInfo { firmware: String::new(), magic_bytes: magic }.parse()
}

#[test]
fn reads_firmware_and_magic_bytes() {
    let info = DeviceInfo::from_str(&info_text(MAGIC)).unwrap();
    assert_eq!(info.firmware, "HUION_T18C_211220");
    assert_eq!(
        info.magic_bytes,
        vec![0x12, 0x00, 0x70, 0xc6, 0x00, 0x06, 0x7c, 0x00, 0xff, 0x1f, 0xd8, 0x13, 0x00, 0x0d, 0, 0, 0, 0]
    );
}

#[test]
fn decodes_dimensions() {
    let info = DeviceInfo::from_str(&info_text(MAGIC)).unwrap();
    assert_eq!(
        info.parse(),
        Ok(ParsedDeviceInfo {
            x_max: 50800,
            y_max: 31750,
            pres_max: 8191,
            resolution: 5080,
            num_btns: 13,
        })
    );
}

#[test]
fn decoding_is_repeatable() {
    let info = DeviceInfo::from_str(&info_text(MAGIC)).unwrap();
    assert_eq!(info.parse(), info.parse());
}

#[test]
fn decodes_three_byte_axes() {
    let mut m = vec![0u8; 20];
    m[0] = 20;
    m[2..5].copy_from_slice(&[0x01, 0x02, 0x03]);
    m[5..8].copy_from_slice(&[0xff, 0xff, 0xff]);
    m[8..10].copy_from_slice(&[0x34, 0x12]);
    m[10..12].copy_from_slice(&[0x00, 0x00]);
    m[13] = 0;
    assert_eq!(
        dims(m),
        Ok(ParsedDeviceInfo {
            x_max: 0x030201,
            y_max: 0xffffff,
            pres_max: 0x1234,
            resolution: 0,
            num_btns: 0,
        })
    );
}

#[test]
fn short_blob_is_too_short() {
    let mut m = vec![0u8; 17];
    m[0] = 17;
    assert_eq!(dims(m), Err(DeviceInfoError::TooShort));
    assert_eq!(dims(Vec::new()), Err(DeviceInfoError::TooShort));
}

#[test]
fn wrong_declared_length() {
    let mut m = vec![0u8; 18];
    m[0] = 19;
    assert_eq!(dims(m), Err(DeviceInfoError::LengthMismatch));
}

#[test]
fn crlf_lines_and_other_keys() {
    let text = format!(
        "HUION_FOO=\"bar\"\r\nno equals sign here\r\nHUION_FIRMWARE_ID=\"GM001_T207_210524\"\r\nHUION_MAGIC_BYTES=\"{MAGIC}\"\r\n"
    );
    let info = DeviceInfo::from_str(&text).unwrap();
    assert_eq!(info.firmware, "GM001_T207_210524");
    assert_eq!(info.magic_bytes.len(), 18);
}

#[test]
fn first_occurrence_of_a_key_counts() {
    let text = format!("HUION_FIRMWARE_ID=\"first\"\nHUION_FIRMWARE_ID=\"second\"\nHUION_MAGIC_BYTES=\"{MAGIC}\"");
    assert_eq!(DeviceInfo::from_str(&text).unwrap().firmware, "first");
}

#[test]
fn value_may_hold_equals_and_uppercase_hex() {
    let text = "HUION_FIRMWARE_ID=\"a=b\"\nHUION_MAGIC_BYTES=\"0A0b\"";
    let info = DeviceInfo::from_str(text).unwrap();
    assert_eq!(info.firmware, "a=b");
    assert_eq!(info.magic_bytes, vec![0x0a, 0x0b]);
}

#[test]
fn unquoted_value_is_malformed() {
    let text = format!("HUION_FIRMWARE_ID=x\nHUION_MAGIC_BYTES=\"{MAGIC}\"");
    assert_eq!(DeviceInfo::from_str(&text).unwrap_err(), DeviceInfoError::MalformedQuoting);
    let text = format!("OTHER=\"\nHUION_FIRMWARE_ID=\"x\"\nHUION_MAGIC_BYTES=\"{MAGIC}\"");
    assert_eq!(DeviceInfo::from_str(&text).unwrap_err(), DeviceInfoError::MalformedQuoting);
}

#[test]
fn pad_mode_is_unsupported() {
    let text = format!("HUION_PAD_MODE=\"1\"\n{}", info_text(MAGIC));
    assert_eq!(DeviceInfo::from_str(&text).unwrap_err(), DeviceInfoError::UnsupportedProtocol);
}

#[test]
fn missing_keys() {
    let err = DeviceInfo::from_str(&format!("HUION_MAGIC_BYTES=\"{MAGIC}\"")).unwrap_err();
    assert_eq!(err, DeviceInfoError::MissingField(CapabilityKey::FirmwareId));
    let err = DeviceInfo::from_str("HUION_FIRMWARE_ID=\"x\"").unwrap_err();
    assert_eq!(err, DeviceInfoError::MissingField(CapabilityKey::MagicBytes));
    assert_eq!(DeviceInfo::from_str("").unwrap_err(), DeviceInfoError::MissingField(CapabilityKey::FirmwareId));
    assert_eq!(CapabilityKey::FirmwareId.name(), "HUION_FIRMWARE_ID");
    assert_eq!(CapabilityKey::MagicBytes.name(), "HUION_MAGIC_BYTES");
}

#[test]
fn bad_hex_is_rejected() {
    let err = DeviceInfo::from_str(&info_text("123")).unwrap_err();
    assert_eq!(err, DeviceInfoError::InvalidHex);
    let err = DeviceInfo::from_str(&info_text("zz")).unwrap_err();
    assert_eq!(err, DeviceInfoError::InvalidHex);
}
