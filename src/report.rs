//! Translation of the tablet's vendor reports into the reports that the
//! descriptor declares.
//!
//! A vendor report is [`REPORT_SIZE`] bytes. Its second byte tells its kind:
//! [`PAD_TAG`] for the pad's buttons, [`DIAL_TAG`] for a turn of one of its
//! wheels, and anything else for the pen.
use vstd::prelude::*;

use crate::descriptor::{
    button_bytes, declared_buttons, ParsedDeviceInfo, PAD_REPORT_ID, PEN_REPORT_ID, REPORT_SIZE,
};

verus! {

pub const PAD_TAG: u8 = 0xe0;

pub const DIAL_TAG: u8 = 0xf1;

/// The bits of the pen's first byte that the pen report keeps: in range
/// (bit 7) and the three switches (bits 0 to 2).
pub const PEN_FLAGS: u8 = 0x87;

/// What the translator remembers between the reports of one tablet.
#[derive(Debug, Clone, Copy, PartialEq, Eq, Structural)]
pub struct State {
    /// The buttons of the last pad report, as it was sent.
    pub buttons: u16,
}

impl State {
    /// The state of a tablet that has sent nothing yet.
    pub fn new() -> (r: State)
        ensures
            r.buttons == 0,
    {
        State { buttons: 0 }
    }
}

/// A vendor report, by kind.
#[derive(Debug, Clone, Copy, PartialEq, Eq, Structural)]
pub enum VendorReport {
    /// The pad's buttons, button 1 in bit 0.
    Pad { buttons: u16 },
    /// A turn of wheel `wheel` (1 the top one, 2 the bottom one) in
    /// `direction` (1 clockwise, 2 counter-clockwise, 0 none).
    Dial { wheel: u8, direction: u8 },
    /// The pen: flags, position, pressure and tilt, as the report holds them.
    Pen { flags: u8, x_lo: u8, x_hi: u8, y_lo: u8, y_hi: u8, p_lo: u8, p_hi: u8, tilt_x: u8, tilt_y: u8 },
}

/// What kind of report `raw` is, and what it says.
pub open spec fn classify(raw: Seq<u8>) -> VendorReport {
    if raw[1] == PAD_TAG {
        VendorReport::Pad { buttons: (raw[4] as int + 256 * raw[5] as int) as u16 }
    } else if raw[1] == DIAL_TAG {
        VendorReport::Dial { wheel: raw[3], direction: raw[5] }
    } else {
        VendorReport::Pen {
            flags: raw[1],
            x_lo: raw[2],
            x_hi: raw[3],
            y_lo: raw[4],
            y_hi: raw[5],
            p_lo: raw[6],
            p_hi: raw[7],
            tilt_x: raw[10],
            tilt_y: raw[11],
        }
    }
}

/// The low `n` bits set.
pub open spec fn low_bits(n: u8) -> u16 {
    if n >= 16 {
        0xffff
    } else {
        ((1u16 << n as u16) - 1) as u16
    }
}

/// Byte `j` of the pad report's button field.
pub open spec fn button_byte(mask: u16, j: int) -> u8 {
    if j == 0 {
        (mask & 0xff) as u8
    } else if j == 1 {
        (mask >> 8u16) as u8
    } else {
        0
    }
}

/// The pad report with buttons `mask` and wheel bytes `top` and `bottom`.
pub open spec fn pad_report(d: ParsedDeviceInfo, mask: u16, top: u8, bottom: u8) -> Seq<u8> {
    let b = button_bytes(d) as int;
    Seq::new(
        REPORT_SIZE as nat,
        |i: int|
            if i == 0 {
                PAD_REPORT_ID
            } else if i <= b {
                button_byte(mask, i - 1)
            } else if i == b + 1 {
                top
            } else if i == b + 2 {
                bottom
            } else {
                0
            },
    )
}

/// The pen report for a pen vendor report.
pub open spec fn pen_report(r: VendorReport) -> Seq<u8> {
    match r {
        VendorReport::Pen { flags, x_lo, x_hi, y_lo, y_hi, p_lo, p_hi, tilt_x, tilt_y } => seq![
            PEN_REPORT_ID,
            flags & PEN_FLAGS,
            x_lo,
            x_hi,
            y_lo,
            y_hi,
            p_lo,
            p_hi,
            tilt_x,
            tilt_y,
            0,
            0,
        ],
        _ => seq![],
    }
}

/// The wheel byte for a turn in `direction`: +1 clockwise, -1 counter-clockwise.
pub open spec fn wheel_step(direction: u8) -> Option<u8> {
    if direction == 1 {
        Some(1u8)
    } else if direction == 2 {
        Some(0xffu8)
    } else {
        None
    }
}

/// What the translator sends for vendor report `raw` from a tablet of
/// dimensions `d` whose last pad report had buttons `last`, if anything, and
/// the buttons it remembers afterwards.
pub open spec fn translate(d: ParsedDeviceInfo, last: u16, raw: Seq<u8>) -> (Option<Seq<u8>>, u16) {
    match classify(raw) {
        VendorReport::Pad { buttons } => {
            let mask = buttons & low_bits(declared_buttons(d));
            (Some(pad_report(d, mask, 0, 0)), mask)
        },
        VendorReport::Dial { wheel, direction } => match wheel_step(direction) {
            Some(step) if wheel == 1 => (Some(pad_report(d, last, step, 0)), last),
            Some(step) if wheel == 2 => (Some(pad_report(d, last, 0, step)), last),
            _ => (None, last),
        },
        VendorReport::Pen { .. } => (Some(pen_report(classify(raw))), last),
    }
}

/// Every vendor report has a translation: a report of the full size that
/// carries one of the two declared ids, or nothing; and nothing only for a
/// dial report whose wheel or direction is not a known one.
pub proof fn lemma_translation_total(d: ParsedDeviceInfo, last: u16, raw: Seq<u8>)
    requires
        raw.len() == REPORT_SIZE,
    ensures
        translate(d, last, raw).0 matches Some(out) ==> out.len() == REPORT_SIZE && (out[0]
            == PAD_REPORT_ID || out[0] == PEN_REPORT_ID),
        translate(d, last, raw).0 is None <==> raw[1] == DIAL_TAG && (wheel_step(raw[5]) is None
            || (raw[3] != 1 && raw[3] != 2)),
{
}

/// The buttons that the translator remembers never include one beyond the
/// count that the pad report declares.
pub proof fn lemma_buttons_within_count(d: ParsedDeviceInfo, last: u16, raw: Seq<u8>)
    requires
        raw.len() == REPORT_SIZE,
        last & low_bits(declared_buttons(d)) == last,
    ensures
        translate(d, last, raw).1 & low_bits(declared_buttons(d)) == translate(d, last, raw).1,
{
    let l = low_bits(declared_buttons(d));
    if let VendorReport::Pad { buttons } = classify(raw) {
        assert((buttons & l) & l == buttons & l) by (bit_vector);
    }
}

/// Bit `i` of a pad report's button field, counting from bit 0 of its first
/// byte.
pub open spec fn pad_bit(out: Seq<u8>, i: int) -> bool {
    (out[1 + i / 8] >> (i % 8) as u8) & 1 == 1
}

/// A pad vendor report sets bit `i` of the pad report's button field exactly
/// where it holds button `i + 1` and the tablet has that many buttons.
pub proof fn lemma_pad_buttons(d: ParsedDeviceInfo, last: u16, raw: Seq<u8>, i: int)
    requires
        raw.len() == REPORT_SIZE,
        raw[1] == PAD_TAG,
        0 <= i < 8 * button_bytes(d),
        i < 16,
    ensures
        translate(d, last, raw).0 matches Some(out) && pad_bit(out, i) == (i < declared_buttons(d)
            && ((classify(raw)->Pad_buttons >> i as u16) & 1 == 1)),
{
    let b = classify(raw)->Pad_buttons;
    let n = declared_buttons(d);
    let l = low_bits(n);
    let m = b & l;
    let out = translate(d, last, raw).0->0;
    let k = i as u16;
    assert(out[1 + i / 8] == button_byte(m, i / 8));
    if n >= 16 {
        assert(((b & 0xffff) >> k) & 1 == (b >> k) & 1) by (bit_vector);
    } else {
        let nn = n as u16;
        assert(k < 16 && nn < 16 ==> (((b & (((1u16 << nn) - 1) as u16)) >> k) & 1 == 1 <==> (k < nn
            && (b >> k) & 1 == 1))) by (bit_vector);
    }
    assert(k < 16 ==> ((m >> k) & 1 == 1 <==> (if k < 8 {
        ((m & 0xff) as u8 >> (k as u8)) & 1 == 1
    } else {
        ((m >> 8u16) as u8 >> ((k - 8) as u8)) & 1 == 1
    }))) by (bit_vector);
}

pub open spec fn sent(r: Option<[u8; REPORT_SIZE]>) -> Option<Seq<u8>> {
    match r {
        Some(out) => Some(out@),
        None => None,
    }
}

/// Reads the kind and the contents of a vendor report.
pub fn classify_report(raw: &[u8; REPORT_SIZE]) -> (r: VendorReport)
    ensures
        r == classify(raw@),
{
    if raw[1] == PAD_TAG {
        VendorReport::Pad { buttons: raw[4] as u16 + 256 * raw[5] as u16 }
    } else if raw[1] == DIAL_TAG {
        VendorReport::Dial { wheel: raw[3], direction: raw[5] }
    } else {
        VendorReport::Pen {
            flags: raw[1],
            x_lo: raw[2],
            x_hi: raw[3],
            y_lo: raw[4],
            y_hi: raw[5],
            p_lo: raw[6],
            p_hi: raw[7],
            tilt_x: raw[10],
            tilt_y: raw[11],
        }
    }
}

fn low_bits_of(n: u8) -> (r: u16)
    ensures
        r == low_bits(n),
{
    if n >= 16 {
        0xffff
    } else {
        assert(1u16 << n as u16 >= 1) by (bit_vector)
            requires
                n < 16,
        ;
        (1u16 << n as u16) - 1
    }
}

fn pad_report_bytes(d: &ParsedDeviceInfo, mask: u16, top: u8, bottom: u8) -> (r: [u8; REPORT_SIZE])
    ensures
        r@ == pad_report(*d, mask, top, bottom),
{
    let b = d.pad_button_bytes() as usize;
    let mut out = [0u8; REPORT_SIZE];
    out[0] = PAD_REPORT_ID;
    if b >= 1 {
        out[1] = (mask & 0xff) as u8;
    }
    if b >= 2 {
        out[2] = (mask >> 8) as u8;
    }
    out[b + 1] = top;
    out[b + 2] = bottom;
    assert(out@ =~= pad_report(*d, mask, top, bottom));
    out
}

/// Translates one vendor report. A pad report sets the buttons, dropping
/// those beyond the tablet's count, and leaves the wheels still; a dial
/// report turns one wheel by one step and repeats the buttons of the last pad
/// report, or sends nothing where the wheel or the direction is not one of
/// the known ones (no turn included); a pen report passes its fields through.
/// Only a pad report changes `st`.
pub fn fixup_report(
    dims: &ParsedDeviceInfo,
    raw: &[u8; REPORT_SIZE],
    st: &mut State,
) -> (r: Option<[u8; REPORT_SIZE]>)
    ensures
        sent(r) == translate(*dims, old(st).buttons, raw@).0,
        final(st).buttons == translate(*dims, old(st).buttons, raw@).1,
{
    match classify_report(raw) {
        VendorReport::Pad { buttons } => {
            let mask = buttons & low_bits_of(dims.pad_button_count());
            st.buttons = mask;
            Some(pad_report_bytes(dims, mask, 0, 0))
        },
        VendorReport::Dial { wheel, direction } => {
            let step: u8 = if direction == 1 {
                1
            } else if direction == 2 {
                0xff
            } else {
                return None;
            };
            if wheel == 1 {
                Some(pad_report_bytes(dims, st.buttons, step, 0))
            } else if wheel == 2 {
                Some(pad_report_bytes(dims, st.buttons, 0, step))
            } else {
                None
            }
        },
        VendorReport::Pen { flags, x_lo, x_hi, y_lo, y_hi, p_lo, p_hi, tilt_x, tilt_y } => {
            let out: [u8; REPORT_SIZE] = [
                PEN_REPORT_ID,
                flags & PEN_FLAGS,
                x_lo,
                x_hi,
                y_lo,
                y_hi,
                p_lo,
                p_hi,
                tilt_x,
                tilt_y,
                0,
                0,
            ];
            assert(out@ =~= pen_report(classify(raw@)));
            Some(out)
        },
    }
}

} // verus!
