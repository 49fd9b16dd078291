//! Report traces: vendor reports written as hex, and translated reports
//! written in the event format of the hid-tools recordings
//! (`E: 000000.000000 12 01 02 ...`).
use vstd::prelude::*;
use vstd::string::*;

use crate::descriptor::{ParsedDeviceInfo, REPORT_SIZE};
use crate::hex_text::{decode_hex, hex_bytes, is_hex_text};
use crate::report::{fixup_report, sent, translate, State};
use crate::text::chars_of;

verus! {

pub open spec fn is_ascii_whitespace(c: char) -> bool {
    c == ' ' || c == '\t' || c == '\n' || c == '\r' || c == '\x0C'
}

/// `s` without its ASCII whitespace.
pub open spec fn strip_ascii_whitespace(s: Seq<char>) -> Seq<char>
    decreases s.len(),
{
    if s.len() == 0 {
        s
    } else if is_ascii_whitespace(s.last()) {
        strip_ascii_whitespace(s.drop_last())
    } else {
        strip_ascii_whitespace(s.drop_last()).push(s.last())
    }
}

/// The vendor report that hex text `s` spells, whitespace aside, if it
/// spells one of the right size.
pub open spec fn vendor_bytes(s: Seq<char>) -> Option<Seq<u8>> {
    let t = strip_ascii_whitespace(s);
    if is_hex_text(t) && t.len() == 2 * REPORT_SIZE {
        Some(hex_bytes(t))
    } else {
        None
    }
}

/// A vendor report, as the tablet sends it.
pub struct Vendor(pub [u8; REPORT_SIZE]);

/// A translated report, or `None` where nothing is sent.
pub struct Report(pub Option<[u8; REPORT_SIZE]>);

impl Vendor {
    /// Reads a vendor report written as hex, with any ASCII whitespace between
    /// the digits.
    pub fn parse(hex_str: &str) -> (r: Option<Vendor>)
        ensures
            r matches Some(v) ==> vendor_bytes(hex_str@) == Some(v.0@),
            r is None ==> vendor_bytes(hex_str@) is None,
    {
        let s = chars_of(hex_str);
        let mut digits = String::new();
        let mut i: usize = 0;
        while i < s.len()
            invariant
                i <= s.len(),
                s@ == hex_str@,
                digits@ == strip_ascii_whitespace(s@.take(i as int)),
            decreases s.len() - i,
        {
            proof {
                assert(s@.take(i + 1).drop_last() =~= s@.take(i as int));
            }
            let c = s[i];
            if !(c == ' ' || c == '\t' || c == '\n' || c == '\r' || c == '\x0C') {
                digits.append(hex_str.substring_char(i, i + 1));
                proof {
                    assert(hex_str@.subrange(i as int, i + 1) =~= seq![c]);
                }
            }
            i = i + 1;
        }
        proof {
            assert(s@.take(s.len() as int) =~= s@);
        }
        match decode_hex(digits.as_str()) {
            Ok(bytes) => {
                if bytes.len() != REPORT_SIZE {
                    return None;
                }
                let mut out = [0u8; REPORT_SIZE];
                let mut j: usize = 0;
                while j < REPORT_SIZE
                    invariant
                        j <= REPORT_SIZE,
                        bytes.len() == REPORT_SIZE,
                        forall|k: int| 0 <= k < j ==> out@[k] == bytes@[k],
                    decreases REPORT_SIZE - j,
                {
                    out[j] = bytes[j];
                    j = j + 1;
                }
                assert(out@ =~= bytes@);
                Some(Vendor(out))
            },
            Err(_) => None,
        }
    }
}

/// The buttons that the translator remembers after reports `raws`, starting
/// from a fresh state.
pub open spec fn run_state(d: ParsedDeviceInfo, raws: Seq<Seq<u8>>) -> u16
    decreases raws.len(),
{
    if raws.len() == 0 {
        0
    } else {
        translate(d, run_state(d, raws.drop_last()), raws.last()).1
    }
}

/// What the translator sends for each of reports `raws`, starting from a
/// fresh state.
pub open spec fn run_translation(d: ParsedDeviceInfo, raws: Seq<Seq<u8>>) -> Seq<Option<Seq<u8>>>
    decreases raws.len(),
{
    if raws.len() == 0 {
        seq![]
    } else {
        run_translation(d, raws.drop_last()).push(
            translate(d, run_state(d, raws.drop_last()), raws.last()).0,
        )
    }
}

/// Reads vendor reports written as hex and translates them in order, with a
/// fresh state; `None` where one of them is not a vendor report.
pub fn run_reports(dims: &ParsedDeviceInfo, reports: &[&str]) -> (r: Option<Vec<Report>>)
    ensures
        r is None <==> exists|i: int| 0 <= i < reports@.len() && vendor_bytes(#[trigger] reports@[i]@) is None,
        r matches Some(v) ==> v@.map_values(|x: Report| sent(x.0)) == run_translation(
            *dims,
            reports@.map_values(|s: &str| vendor_bytes(s@)->0),
        ),
{
    let mut st = State::new();
    let mut out: Vec<Report> = Vec::new();
    let ghost mut raws: Seq<Seq<u8>> = seq![];
    let mut i: usize = 0;
    while i < reports.len()
        invariant
            i <= reports@.len(),
            raws == reports@.take(i as int).map_values(|s: &str| vendor_bytes(s@)->0),
            forall|k: int| 0 <= k < i ==> vendor_bytes(#[trigger] reports@[k]@) is Some,
            st.buttons == run_state(*dims, raws),
            out@.map_values(|x: Report| sent(x.0)) == run_translation(*dims, raws),
        decreases reports@.len() - i,
    {
        let vendor = match Vendor::parse(reports[i]) {
            Some(v) => v,
            None => return None,
        };
        let ghost before = raws;
        let sent_report = fixup_report(dims, &vendor.0, &mut st);
        proof {
            raws = raws.push(vendor.0@);
            assert(raws.drop_last() =~= before);
            assert(reports@.take(i + 1).map_values(|s: &str| vendor_bytes(s@)->0) =~= raws);
        }
        out.push(Report(sent_report));
        proof {
            assert(out@.map_values(|x: Report| sent(x.0)) =~= run_translation(*dims, before).push(
                sent(sent_report),
            ));
        }
        i = i + 1;
    }
    proof {
        assert(reports@.take(i as int) =~= reports@);
    }
    Some(out)
}

/// The lowercase hex digit for `v`, below 16.
pub open spec fn hex_digit(v: int) -> char {
    "0123456789abcdef"@[v]
}

/// A byte as a trace writes it: a space and two hex digits.
pub open spec fn byte_text(b: u8) -> Seq<char> {
    seq![' ', hex_digit(b as int / 16), hex_digit(b as int % 16)]
}

/// Bytes as a trace writes them.
pub open spec fn bytes_text(bytes: Seq<u8>) -> Seq<char>
    decreases bytes.len(),
{
    if bytes.len() == 0 {
        seq![]
    } else {
        bytes_text(bytes.drop_last()) + byte_text(bytes.last())
    }
}

/// A translated report as a trace writes it.
pub open spec fn report_text(r: Option<Seq<u8>>) -> Seq<char> {
    match r {
        Some(bytes) => "E: 000000.000000 12"@ + bytes_text(bytes),
        None => "# No event"@,
    }
}

/// Reports as a trace writes them, one line each.
pub open spec fn reports_text(rs: Seq<Option<Seq<u8>>>) -> Seq<char>
    decreases rs.len(),
{
    if rs.len() == 0 {
        seq![]
    } else {
        reports_text(rs.drop_last()) + report_text(rs.last()) + "\n"@
    }
}

fn push_hex_digit(out: &mut String, v: u8)
    requires
        v < 16,
    ensures
        final(out)@ == old(out)@.push(hex_digit(v as int)),
{
    let digits = "0123456789abcdef";
    proof {
        reveal_strlit("0123456789abcdef");
    }
    let d = digits.substring_char(v as usize, v as usize + 1);
    assert(d@ =~= seq![hex_digit(v as int)]);
    out.append(d);
}

/// Writes a translated report as a trace line, without its line break.
pub fn format_report(report: &Report) -> (r: String)
    ensures
        r@ == report_text(sent(report.0)),
{
    match report.0 {
        Some(bytes) => {
            let mut out = "E: 000000.000000 12".to_owned();
            let mut i: usize = 0;
            while i < REPORT_SIZE
                invariant
                    i <= REPORT_SIZE,
                    out@ == "E: 000000.000000 12"@ + bytes_text(bytes@.take(i as int)),
                decreases REPORT_SIZE - i,
            {
                proof {
                    assert(bytes@.take(i + 1).drop_last() =~= bytes@.take(i as int));
                }
                let b = bytes[i];
                out.append(" ");
                push_hex_digit(&mut out, b / 16);
                push_hex_digit(&mut out, b % 16);
                proof {
                    reveal_strlit(" ");
                    assert(out@ =~= "E: 000000.000000 12"@ + bytes_text(bytes@.take(i + 1)));
                }
                i = i + 1;
            }
            proof {
                assert(bytes@.take(REPORT_SIZE as int) =~= bytes@);
            }
            out
        },
        None => "# No event".to_owned(),
    }
}

/// Writes translated reports as a trace, one line each.
pub fn format_reports(reports: &[Report]) -> (r: String)
    ensures
        r@ == reports_text(reports@.map_values(|x: Report| sent(x.0))),
{
    let mut out = String::new();
    let mut i: usize = 0;
    while i < reports.len()
        invariant
            i <= reports@.len(),
            out@ == reports_text(reports@.take(i as int).map_values(|x: Report| sent(x.0))),
        decreases reports@.len() - i,
    {
        let line = format_report(&reports[i]);
        out.append(line.as_str());
        out.append("\n");
        proof {
            let before = reports@.take(i as int).map_values(|x: Report| sent(x.0));
            let after = reports@.take(i + 1).map_values(|x: Report| sent(x.0));
            assert(after.drop_last() =~= before);
            assert(after.last() == sent(reports@[i as int].0));
        }
        i = i + 1;
    }
    proof {
        assert(reports@.take(i as int) =~= reports@);
    }
    out
}

} // verus!
