use hid_bpf_uclogic::descriptor::ParsedDeviceInfo;
use hid_bpf_uclogic::report::{fixup_report, State};
use hid_bpf_uclogic::trace::{format_report, format_reports, run_reports, Report, Vendor};

fn tablet() -> ParsedDeviceInfo {
    ParsedDeviceInfo {
        x_max: 50800,
        y_max: 31750,
        pres_max: 8191,
        resolution: 5080,
        num_btns: 13,
    }
}

fn trace(reports: &[&str]) -> String {
    format_reports(&run_reports(&tablet(), reports).unwrap())
}

#[test]
fn test_button() {
    let reports = [
        "08 e0 01 01 01 00 00 00 00 00 00 00", // Button 1 press
        "08 e0 01 01 00 00 00 00 00 00 00 00", // Button 1 release
        "08 e0 01 01 00 10 00 00 00 00 00 00", // Button 13 press
        "08 e0 01 01 00 00 00 00 00 00 00 00", // Button 13 release
    ];
    assert_eq!(
        trace(&reports),
        "E: 000000.000000 12 01 01 00 00 00 00 00 00 00 00 00 00\n\
         E: 000000.000000 12 01 00 00 00 00 00 00 00 00 00 00 00\n\
         E: 000000.000000 12 01 00 10 00 00 00 00 00 00 00 00 00\n\
         E: 000000.000000 12 01 00 00 00 00 00 00 00 00 00 00 00\n"
    );
}

#[test]
fn test_dial() {
    let reports = [
        "08 f1 01 01 00 01 00 00 00 00 00 00", // Top wheel CW
        "08 f1 01 01 00 02 00 00 00 00 00 00", // Top wheel CCW
        "08 f1 01 02 00 01 00 00 00 00 00 00", // Bottom wheel CW
        "08 f1 01 02 00 02 00 00 00 00 00 00", // Bottom wheel CCW
    ];
    assert_eq!(
        trace(&reports),
        "E: 000000.000000 12 01 00 00 01 00 00 00 00 00 00 00 00\n\
         E: 000000.000000 12 01 00 00 ff 00 00 00 00 00 00 00 00\n\
         E: 000000.000000 12 01 00 00 00 01 00 00 00 00 00 00 00\n\
         E: 000000.000000 12 01 00 00 00 ff 00 00 00 00 00 00 00\n"
    );
}

#[test]
fn test_pen_movement() {
    let reports = [
        "08 80 a0 05 08 0a 00 00 00 00 00 00", // Pen hovering near top left
        "08 00 a0 05 08 0a 00 00 00 00 00 00", // Pen away
        "08 80 e9 c9 04 86 00 00 00 00 00 00", // Pen hovering near bottom right
        "08 00 e9 c9 04 86 00 00 00 00 00 00", // Pen away
    ];
    assert_eq!(
        trace(&reports),
        "E: 000000.000000 12 02 80 a0 05 08 0a 00 00 00 00 00 00\n\
         E: 000000.000000 12 02 00 a0 05 08 0a 00 00 00 00 00 00\n\
         E: 000000.000000 12 02 80 e9 c9 04 86 00 00 00 00 00 00\n\
         E: 000000.000000 12 02 00 e9 c9 04 86 00 00 00 00 00 00\n"
    );
}

#[test]
fn test_pen_tilt() {
    let reports = [
        "08 80 92 16 b6 0c 00 00 00 00 da 00", // Tilt left
        "08 80 0c 0a 5a 0d 00 00 00 00 2e 00", // Tilt right
        "08 80 d1 07 aa 10 00 00 00 00 00 29", // Tilt up
        "08 00 91 0d 63 08 00 00 00 00 00 d9", // Tilt down
    ];
    assert_eq!(
        trace(&reports),
        "E: 000000.000000 12 02 80 92 16 b6 0c 00 00 da 00 00 00\n\
         E: 000000.000000 12 02 80 0c 0a 5a 0d 00 00 2e 00 00 00\n\
         E: 000000.000000 12 02 80 d1 07 aa 10 00 00 00 29 00 00\n\
         E: 000000.000000 12 02 00 91 0d 63 08 00 00 00 d9 00 00\n"
    );
}

#[test]
fn test_pen_buttons() {
    let reports = [
        "08 82 d8 00 77 07 00 00 00 00 00 00", // Press lower button
        "08 84 22 06 26 0c 00 00 00 00 00 00", // Press upper button
    ];
    assert_eq!(
        trace(&reports),
        "E: 000000.000000 12 02 82 d8 00 77 07 00 00 00 00 00 00\n\
         E: 000000.000000 12 02 84 22 06 26 0c 00 00 00 00 00 00\n"
    );
}

#[test]
fn test_pen_pressure() {
    let reports = [
        "08 81 03 00 64 09 21 03 00 00 00 00", // Tap low pressure
        "08 81 e0 03 8b 0d ff 1f 00 00 00 00", // Tap max pressure
    ];
    assert_eq!(
        trace(&reports),
        "E: 000000.000000 12 02 81 03 00 64 09 21 03 00 00 00 00\n\
         E: 000000.000000 12 02 81 e0 03 8b 0d ff 1f 00 00 00 00\n"
    );
}

#[test]
fn dial_repeats_last_buttons() {
    let reports = [
        "08 e0 01 01 01 00 00 00 00 00 00 00",
        "08 f1 01 01 00 01 00 00 00 00 00 00",
        "08 f1 01 01 00 00 00 00 00 00 00 00",
        "08 f1 01 03 00 01 00 00 00 00 00 00",
        "08 f1 01 01 00 03 00 00 00 00 00 00",
    ];
    assert_eq!(
        trace(&reports),
        "E: 000000.000000 12 01 01 00 00 00 00 00 00 00 00 00 00\n\
         E: 000000.000000 12 01 01 00 01 00 00 00 00 00 00 00 00\n\
         # No event\n\
         # No event\n\
         # No event\n"
    );
}

#[test]
fn pen_passes_fields_and_drops_unknown_flag_bits() {
    let mut st = State::new();
    let raw = [0x08, 0xff, 0x12, 0x34, 0x56, 0x78, 0x9a, 0xbc, 0xde, 0xf0, 0xc4, 0x3c];
    let out = fixup_report(&tablet(), &raw, &mut st).unwrap();
    assert_eq!(out, [0x02, 0x87, 0x12, 0x34, 0x56, 0x78, 0x9a, 0xbc, 0xc4, 0x3c, 0, 0]);
    assert_eq!(st.buttons, 0);
}

#[test]
fn pen_hover_exit_is_sent() {
    let mut st = State::new();
    let raw = [0x08, 0x00, 0, 0, 0, 0, 0, 0, 0, 0, 0, 0];
    assert_eq!(
        fixup_report(&tablet(), &raw, &mut st),
        Some([0x02, 0, 0, 0, 0, 0, 0, 0, 0, 0, 0, 0])
    );
}

#[test]
fn buttons_beyond_count_are_dropped() {
    let five = ParsedDeviceInfo { num_btns: 5, ..tablet() };
    let mut st = State::new();
    let raw = [0x08, 0xe0, 1, 1, 0xff, 0xff, 0, 0, 0, 0, 0, 0];
    let out = fixup_report(&five, &raw, &mut st).unwrap();
    assert_eq!(out, [0x01, 0x1f, 0, 0, 0, 0, 0, 0, 0, 0, 0, 0]);
    assert_eq!(st.buttons, 0x1f);
    let dial = [0x08, 0xf1, 1, 2, 0, 2, 0, 0, 0, 0, 0, 0];
    let out = fixup_report(&five, &dial, &mut st).unwrap();
    assert_eq!(out, [0x01, 0x1f, 0x00, 0xff, 0, 0, 0, 0, 0, 0, 0, 0]);
}

#[test]
fn sixteen_buttons_keep_every_bit() {
    let sixteen = ParsedDeviceInfo { num_btns: 16, ..tablet() };
    let mut st = State::new();
    let raw = [0x08, 0xe0, 1, 1, 0xff, 0xff, 0, 0, 0, 0, 0, 0];
    let out = fixup_report(&sixteen, &raw, &mut st).unwrap();
    assert_eq!(out, [0x01, 0xff, 0xff, 0, 0, 0, 0, 0, 0, 0, 0, 0]);
}

#[test]
fn no_buttons_puts_wheels_first() {
    let none = ParsedDeviceInfo { num_btns: 0, ..tablet() };
    let mut st = State::new();
    let raw = [0x08, 0xe0, 1, 1, 0xff, 0xff, 0, 0, 0, 0, 0, 0];
    assert_eq!(fixup_report(&none, &raw, &mut st), Some([0x01, 0, 0, 0, 0, 0, 0, 0, 0, 0, 0, 0]));
    let dial = [0x08, 0xf1, 1, 1, 0, 1, 0, 0, 0, 0, 0, 0];
    assert_eq!(fixup_report(&none, &dial, &mut st), Some([0x01, 0x01, 0, 0, 0, 0, 0, 0, 0, 0, 0, 0]));
}

#[test]
fn every_tag_is_translated_or_suppressed() {
    for tag in 0..=255u8 {
        for wheel in [0u8, 1, 2, 3] {
            for direction in [0u8, 1, 2, 3] {
                let mut st = State::new();
                let raw = [0x08, tag, 1, wheel, 0x01, direction, 0, 0, 0, 0, 0, 0];
                match fixup_report(&tablet(), &raw, &mut st) {
                    Some(out) => assert!(out[0] == 1 || out[0] == 2),
                    None => {
                        assert_eq!(tag, 0xf1);
                        assert!(!(matches!(wheel, 1 | 2) && matches!(direction, 1 | 2)));
                    }
                }
            }
        }
    }
}

#[test]
fn format_of_no_event() {
    assert_eq!(format_report(&Report(None)), "# No event");
    assert_eq!(format_reports(&[]), "");
}

#[test]
fn vendor_parse_rejects_bad_text() {
    assert!(Vendor::parse("08 e0 01").is_none());
    assert!(Vendor::parse("08 e0 01 01 01 00 00 00 00 00 00 0g").is_none());
    assert!(Vendor::parse("08 e0 01 01 01 00 00 00 00 00 00 00 00").is_none());
    let v = Vendor::parse("08e0\t0101\n0100 000000 00 00 ff").unwrap();
    assert_eq!(v.0, [0x08, 0xe0, 1, 1, 1, 0, 0, 0, 0, 0, 0, 0xff]);
    assert!(run_reports(&tablet(), &["08 e0", "08 e0 01 01 01 00 00 00 00 00 00 00"]).is_none());
}
