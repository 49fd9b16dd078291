//! Decisions on what sysfs says about a device: the values come in as text
//! already read, and the answers go out as plain values.
use vstd::prelude::*;
use vstd::string::*;

use crate::hex_text::{hex_digit_value, is_hex_digit};
use crate::text::{chars_of, range_equals};

verus! {

/// The USB vendor and product ids of the supported tablets (Gaomon M6 and
/// M7, Huion HC16).
pub const SUPPORTED_VID: u32 = 0x256c;

pub const SUPPORTED_PID: u32 = 0x0064;

/// The firmware identifier of the Gaomon M7.
pub const SUPPORTED_FIRMWARE_M7: &'static str = "GM001_T207_210524";

/// The firmware identifier of the Huion HC16.
pub const SUPPORTED_FIRMWARE_HC16: &'static str = "HUION_T18C_211220";

/// The subsystem of a USB device.
pub const USB_SUBSYSTEM: &'static str = "usb";

/// One or more hex digits, and nothing else.
pub open spec fn is_hex_number(s: Seq<char>) -> bool {
    s.len() > 0 && forall|i: int| 0 <= i < s.len() ==> is_hex_digit(#[trigger] s[i])
}

/// The value of hex digits, the most significant first.
pub open spec fn hex_value(s: Seq<char>) -> nat
    decreases s.len(),
{
    if s.len() == 0 {
        0
    } else {
        hex_value(s.drop_last()) * 16 + hex_digit_value(s.last()) as nat
    }
}

/// `s` without one leading `c`, if it has one.
pub open spec fn without_sign(s: Seq<char>, c: char) -> Seq<char> {
    if s.len() > 0 && s[0] == c {
        s.skip(1)
    } else {
        s
    }
}

/// What `u32::from_str_radix(s, 16)` gives: an optional `+`, then hex
/// digits whose value fits.
pub open spec fn hex_u32(s: Seq<char>) -> Option<u32> {
    let d = without_sign(s, '+');
    if is_hex_number(d) && hex_value(d) <= u32::MAX {
        Some(hex_value(d) as u32)
    } else {
        None
    }
}

/// What `i32::from_str_radix(s, 16)` gives: an optional sign, then hex
/// digits whose signed value fits.
pub open spec fn hex_i32(s: Seq<char>) -> Option<i32> {
    if s.len() > 0 && s[0] == '-' {
        let d = s.skip(1);
        if is_hex_number(d) && hex_value(d) <= 0x8000_0000 {
            Some((-hex_value(d)) as i32)
        } else {
            None
        }
    } else {
        let d = without_sign(s, '+');
        if is_hex_number(d) && hex_value(d) <= i32::MAX {
            Some(hex_value(d) as i32)
        } else {
            None
        }
    }
}

proof fn lemma_hex_value_grows(s: Seq<char>, k: int)
    requires
        0 <= k <= s.len(),
    ensures
        hex_value(s.take(k)) <= hex_value(s),
    decreases s.len(),
{
    if k < s.len() {
        assert(s.drop_last().take(k) =~= s.take(k));
        lemma_hex_value_grows(s.drop_last(), k);
    } else {
        assert(s.take(k) =~= s);
    }
}

/// The value of hex digits `s[from..to]`, where there is at least one and it
/// is at most `limit`.
fn hex_value_in(s: &Vec<char>, from: usize, to: usize, limit: u64) -> (r: Option<u64>)
    requires
        from <= to <= s.len(),
        limit <= 0x1_0000_0000,
    ensures
        r == (if is_hex_number(s@.subrange(from as int, to as int)) && hex_value(
            s@.subrange(from as int, to as int),
        ) <= limit {
            Some(hex_value(s@.subrange(from as int, to as int)) as u64)
        } else {
            None::<u64>
        }),
{
    let ghost d = s@.subrange(from as int, to as int);
    if from == to {
        return None;
    }
    let mut acc: u64 = 0;
    let mut i: usize = from;
    proof {
        assert(d.take(0) =~= Seq::<char>::empty());
    }
    while i < to
        invariant
            from <= i <= to <= s.len(),
            d == s@.subrange(from as int, to as int),
            limit <= 0x1_0000_0000,
            acc <= limit,
            acc == hex_value(d.take(i - from)),
            forall|j: int| 0 <= j < i - from ==> is_hex_digit(#[trigger] d[j]),
        decreases to - i,
    {
        let c = s[i];
        let v: u64 = if '0' <= c && c <= '9' {
            (c as u32 - '0' as u32) as u64
        } else if 'a' <= c && c <= 'f' {
            (c as u32 - 'a' as u32 + 10) as u64
        } else if 'A' <= c && c <= 'F' {
            (c as u32 - 'A' as u32 + 10) as u64
        } else {
            assert(!is_hex_digit(d[i - from]));
            return None;
        };
        proof {
            assert(d.take(i - from + 1).drop_last() =~= d.take(i - from));
        }
        let next = acc * 16 + v;
        if next > limit {
            proof {
                lemma_hex_value_grows(d, i - from + 1);
            }
            return None;
        }
        acc = next;
        i = i + 1;
    }
    proof {
        assert(d.take(to - from) =~= d);
    }
    Some(acc)
}

/// `s[from..]` without one leading `c`, as a start position.
fn skip_sign(s: &Vec<char>, from: usize, c: char) -> (r: usize)
    requires
        from <= s.len(),
    ensures
        s@.subrange(r as int, s.len() as int) == without_sign(
            s@.subrange(from as int, s.len() as int),
            c,
        ),
        from <= r <= s.len(),
{
    if from < s.len() && s[from] == c {
        assert(s@.subrange(from as int, s.len() as int).skip(1) =~= s@.subrange(
            from + 1,
            s.len() as int,
        ));
        from + 1
    } else {
        from
    }
}

/// Reads a number in hex as `u32::from_str_radix(s, 16)` does.
pub fn parse_hex_u32(s: &str) -> (r: Option<u32>)
    ensures
        r == hex_u32(s@),
{
    let c = chars_of(s);
    assert(c@.subrange(0, c@.len() as int) =~= c@);
    let start = skip_sign(&c, 0, '+');
    match hex_value_in(&c, start, c.len(), 0xffff_ffff) {
        Some(v) => Some(v as u32),
        None => None,
    }
}

/// Reads a number in hex as `i32::from_str_radix(s, 16)` does.
pub fn parse_hex_i32(s: &str) -> (r: Option<i32>)
    ensures
        r == hex_i32(s@),
{
    let c = chars_of(s);
    assert(c@.subrange(0, c@.len() as int) =~= c@);
    if c.len() > 0 && c[0] == '-' {
        assert(c@.skip(1) =~= c@.subrange(1, c@.len() as int));
        match hex_value_in(&c, 1, c.len(), 0x8000_0000) {
            Some(v) => Some((0 - v as i64) as i32),
            None => None,
        }
    } else {
        let start = skip_sign(&c, 0, '+');
        match hex_value_in(&c, start, c.len(), 0x7fff_ffff) {
            Some(v) => Some(v as i32),
            None => None,
        }
    }
}

/// A USB device of subsystem `usb` whose ids are those of a supported tablet.
pub open spec fn supported_usb(subsystem: Option<&str>, vid: Option<&str>, pid: Option<&str>) -> bool {
    match (subsystem, vid, pid) {
        (Some(s), Some(v), Some(p)) => {
            &&& s@ == USB_SUBSYSTEM@
            &&& hex_u32(v@) == Some(SUPPORTED_VID)
            &&& hex_u32(p@) == Some(SUPPORTED_PID)
        },
        _ => false,
    }
}

/// Whether a USB device of this subsystem and these ids (as sysfs writes
/// them, in hex) is a supported tablet.
pub fn usb_supported(subsystem: Option<&str>, vid: Option<&str>, pid: Option<&str>) -> (r: bool)
    ensures
        r == supported_usb(subsystem, vid, pid),
{
    let sub = match subsystem {
        Some(sub) => chars_of(sub),
        None => return false,
    };
    let usb = chars_of(USB_SUBSYSTEM);
    assert(sub@.subrange(0, sub@.len() as int) =~= sub@);
    if !range_equals(&sub, 0, sub.len(), &usb) {
        return false;
    }
    let vid = match vid {
        Some(v) => parse_hex_u32(v),
        None => return false,
    };
    let pid = match pid {
        Some(p) => parse_hex_u32(p),
        None => return false,
    };
    match (vid, pid) {
        (Some(v), Some(p)) => v == SUPPORTED_VID && p == SUPPORTED_PID,
        _ => false,
    }
}

/// Whether a firmware identifier is one of a supported tablet.
pub fn firmware_supported(firmware: &str) -> (r: bool)
    ensures
        r == (firmware@ == SUPPORTED_FIRMWARE_M7@ || firmware@ == SUPPORTED_FIRMWARE_HC16@),
{
    let f = chars_of(firmware);
    assert(f@.subrange(0, f@.len() as int) =~= f@);
    range_equals(&f, 0, f.len(), &chars_of(SUPPORTED_FIRMWARE_M7)) || range_equals(
        &f,
        0,
        f.len(),
        &chars_of(SUPPORTED_FIRMWARE_HC16),
    )
}

/// Whether a HID device's report descriptor is the tablet's vendor one,
/// which opens with a vendor usage page (`06 00 ff`).
pub fn is_vendor_descriptor(rdesc: &[u8]) -> (r: bool)
    ensures
        r == (rdesc@.len() >= 3 && rdesc@[0] == 0x06 && rdesc@[1] == 0x00 && rdesc@[2] == 0xff),
{
    rdesc.len() >= 3 && rdesc[0] == 0x06 && rdesc[1] == 0x00 && rdesc[2] == 0xff
}

/// A character of Unicode's White_Space property.
pub open spec fn is_white_space(c: char) -> bool {
    ||| ('\u{9}' <= c && c <= '\u{d}')
    ||| c == ' '
    ||| c == '\u{85}'
    ||| c == '\u{a0}'
    ||| c == '\u{1680}'
    ||| ('\u{2000}' <= c && c <= '\u{200a}')
    ||| c == '\u{2028}'
    ||| c == '\u{2029}'
    ||| c == '\u{202f}'
    ||| c == '\u{205f}'
    ||| c == '\u{3000}'
}

pub open spec fn trim_start(s: Seq<char>) -> Seq<char>
    decreases s.len(),
{
    if s.len() > 0 && is_white_space(s[0]) {
        trim_start(s.skip(1))
    } else {
        s
    }
}

pub open spec fn trim_end(s: Seq<char>) -> Seq<char>
    decreases s.len(),
{
    if s.len() > 0 && is_white_space(s.last()) {
        trim_end(s.drop_last())
    } else {
        s
    }
}

/// `s` without its leading and trailing white space.
pub open spec fn trimmed(s: Seq<char>) -> Seq<char> {
    trim_end(trim_start(s))
}

/// Relies on str::trim: it drops the leading and the trailing characters
/// that have Unicode's White_Space property.
#[verifier::external_body]
fn trim(s: &str) -> (r: &str)
    ensures
        r@ == trimmed(s@),
{
    s.trim()
}

/// A property's value as sysfs gives it, without surrounding white space
/// (its final line break above all); `None` where the device has no such
/// property.
pub fn property_trim(value: Option<&str>) -> (r: Option<String>)
    ensures
        r is None <==> value is None,
        r matches Some(t) ==> t@ == trimmed(value->0@),
{
    match value {
        Some(v) => Some(trim(v).to_owned()),
        None => None,
    }
}

/// The part of `s` after its last `c`, all of `s` where it has none.
pub open spec fn after_last(s: Seq<char>, c: char) -> Seq<char>
    decreases s.len(),
{
    if s.len() == 0 {
        s
    } else if s.last() == c {
        seq![]
    } else {
        after_last(s.drop_last(), c).push(s.last())
    }
}

/// The start of the part of `s` after its last `c`.
fn last_segment_start(s: &Vec<char>, c: char) -> (r: usize)
    ensures
        r <= s.len(),
        s@.subrange(r as int, s.len() as int) == after_last(s@, c),
{
    let mut i: usize = s.len();
    proof {
        assert(s@.subrange(s.len() as int, s.len() as int) =~= Seq::<char>::empty());
        assert(s@.take(s.len() as int) =~= s@);
    }
    while i > 0
        invariant
            i <= s.len(),
            forall|j: int| i <= j < s.len() ==> s@[j] != c,
            after_last(s@, c) == after_last(s@.take(i as int), c) + s@.subrange(
                i as int,
                s.len() as int,
            ),
        decreases i,
    {
        if s[i - 1] == c {
            proof {
                assert(s@.take(i as int).last() == c);
                assert(after_last(s@.take(i as int), c) =~= Seq::<char>::empty());
                assert(Seq::<char>::empty() + s@.subrange(i as int, s.len() as int) =~= s@.subrange(
                    i as int,
                    s.len() as int,
                ));
            }
            return i;
        }
        proof {
            assert(s@.take(i as int).drop_last() =~= s@.take(i - 1));
            assert(after_last(s@.take(i - 1), c).push(s@[i - 1]) + s@.subrange(
                i as int,
                s.len() as int,
            ) =~= after_last(s@.take(i - 1), c) + s@.subrange(i - 1, s.len() as int));
        }
        i = i - 1;
    }
    proof {
        assert(s@.take(0) =~= Seq::<char>::empty());
        assert(Seq::<char>::empty() + s@.subrange(0, s.len() as int) =~= s@);
    }
    0
}

/// The HID id in a HID device's name (`0003:256C:0064.000A`): the hex
/// number after the last `.`, white space around it aside.
pub fn hid_device_id(name: &str) -> (r: Option<i32>)
    ensures
        r == hex_i32(trimmed(after_last(name@, '.'))),
{
    let c = chars_of(name);
    let start = last_segment_start(&c, '.');
    parse_hex_i32(trim(name.substring_char(start, c.len())))
}

/// The file name that `Path::file_name` finds in a path on Unix: its last
/// component, where separators repeat or end the path and `.` components
/// are passed over; none where the path is empty, is the root, or ends in
/// `..`.
pub open spec fn path_file_name(p: Seq<char>) -> Option<Seq<char>>
    decreases p.len(),
{
    if p.len() == 0 {
        None
    } else if p.last() == '/' || after_last(p, '/') == seq!['.'] {
        path_file_name(p.drop_last())
    } else if after_last(p, '/') == seq!['.', '.'] {
        None
    } else {
        Some(after_last(p, '/'))
    }
}

/// Relies on std::path::Path::file_name: the final component of the path,
/// after the path is split into components (repeated and trailing
/// separators ignored, `.` passed over), where that is a name; none where it
/// is the root, `.` at the start, or `..`. A file name within a `str` is
/// valid UTF-8.
#[verifier::external_body]
fn file_name<'a>(path: &'a str) -> (r: Option<&'a str>)
    ensures
        r matches Some(n) ==> path_file_name(path@) == Some(n@),
        r is None ==> path_file_name(path@) is None,
{
    std::path::Path::new(path).file_name().and_then(|n| n.to_str())
}

/// The subsystem's name in the target of a device's `subsystem` link (such
/// as `../../../bus/usb`): the link target's file name.
pub fn get_subsystem(link: &str) -> (r: Option<String>)
    ensures
        r matches Some(name) ==> path_file_name(link@) == Some(name@),
        r is None ==> path_file_name(link@) is None,
{
    match file_name(link) {
        Some(name) => Some(name.to_owned()),
        None => None,
    }
}

} // verus!
