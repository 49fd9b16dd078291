//! The capability text that a tablet reports, and the dimensions it encodes.
use vstd::prelude::*;
use vstd::string::*;

use crate::descriptor::ParsedDeviceInfo;
use crate::hex_text::{decode_hex, hex_bytes, is_hex_text};
use crate::text::{
    chars_of, find_char, index_of, is_first_index, lemma_index_of_absent, lemma_index_of_found,
    next_line, range_equals, text_lines,
};

verus! {

/// Present only on tablets of the older protocol, which is not supported.
pub const PAD_MODE_KEY: &'static str = "HUION_PAD_MODE";

/// The firmware identifier.
pub const FIRMWARE_ID_KEY: &'static str = "HUION_FIRMWARE_ID";

/// The capability blob, in hex.
pub const MAGIC_BYTES_KEY: &'static str = "HUION_MAGIC_BYTES";

/// The shortest capability blob that holds every dimension.
pub const MIN_MAGIC_LEN: usize = 18;

/// A key that the capability text must hold.
#[derive(Debug, Clone, Copy, PartialEq, Eq, Structural)]
pub enum CapabilityKey {
    FirmwareId,
    MagicBytes,
}

impl CapabilityKey {
    /// The key as it is written in the capability text.
    pub fn name(&self) -> (r: &'static str)
        ensures
            r@ == self.key()@,
    {
        match self {
            CapabilityKey::FirmwareId => FIRMWARE_ID_KEY,
            CapabilityKey::MagicBytes => MAGIC_BYTES_KEY,
        }
    }

    pub open spec fn key(&self) -> &'static str {
        match self {
            CapabilityKey::FirmwareId => FIRMWARE_ID_KEY,
            CapabilityKey::MagicBytes => MAGIC_BYTES_KEY,
        }
    }
}

/// Why a tablet's capability text was rejected.
#[derive(Debug, Clone, Copy, PartialEq, Eq, Structural)]
pub enum DeviceInfoError {
    /// A `key=value` line whose value is not wrapped in double quotes.
    MalformedQuoting,
    /// A required key is absent.
    MissingField(CapabilityKey),
    /// The tablet speaks the older protocol.
    UnsupportedProtocol,
    /// The capability blob is not hex.
    InvalidHex,
    /// The capability blob is too short to hold the dimensions.
    TooShort,
    /// The capability blob's first byte does not give its length.
    LengthMismatch,
}

/// What a tablet reports about itself.
#[derive(Debug)]
pub struct DeviceInfo {
    pub firmware: String,
    pub magic_bytes: Vec<u8>,
}

impl View for DeviceInfo {
    type V = (Seq<char>, Seq<u8>);

    open spec fn view(&self) -> (Seq<char>, Seq<u8>) {
        (self.firmware@, self.magic_bytes@)
    }
}

/// The key and the raw value of a `key=value` line, split at its first `=`.
pub open spec fn line_entry(line: Seq<char>) -> Option<(Seq<char>, Seq<char>)> {
    let e = index_of(line, '=');
    if e < 0 {
        None
    } else {
        Some((line.take(e), line.skip(e + 1)))
    }
}

pub open spec fn is_quoted(v: Seq<char>) -> bool {
    v.len() >= 2 && v[0] == '"' && v.last() == '"'
}

pub open spec fn unquote(v: Seq<char>) -> Seq<char> {
    v.subrange(1, v.len() - 1)
}

/// Every `key=value` line among `lines` has a quoted value.
pub open spec fn all_quoted(lines: Seq<Seq<char>>) -> bool
    decreases lines.len(),
{
    lines.len() == 0 || ({
        &&& (line_entry(lines[0]) matches Some(e) ==> is_quoted(e.1))
        &&& all_quoted(lines.skip(1))
    })
}

/// The unquoted value of the first line among `lines` whose key is `key`.
pub open spec fn lookup(lines: Seq<Seq<char>>, key: Seq<char>) -> Option<Seq<char>>
    decreases lines.len(),
{
    if lines.len() == 0 {
        None
    } else {
        match line_entry(lines[0]) {
            Some(e) if e.0 == key => Some(unquote(e.1)),
            _ => lookup(lines.skip(1), key),
        }
    }
}

/// What capability text `t` gives: the firmware identifier and the decoded
/// capability blob, or why it is rejected.
pub open spec fn device_info_from_text(t: Seq<char>) -> Result<(Seq<char>, Seq<u8>), DeviceInfoError> {
    let lines = text_lines(t);
    if !all_quoted(lines) {
        Err(DeviceInfoError::MalformedQuoting)
    } else if lookup(lines, PAD_MODE_KEY@) is Some {
        Err(DeviceInfoError::UnsupportedProtocol)
    } else if lookup(lines, FIRMWARE_ID_KEY@) is None {
        Err(DeviceInfoError::MissingField(CapabilityKey::FirmwareId))
    } else if lookup(lines, MAGIC_BYTES_KEY@) is None {
        Err(DeviceInfoError::MissingField(CapabilityKey::MagicBytes))
    } else if !is_hex_text(lookup(lines, MAGIC_BYTES_KEY@)->0) {
        Err(DeviceInfoError::InvalidHex)
    } else {
        Ok((lookup(lines, FIRMWARE_ID_KEY@)->0, hex_bytes(lookup(lines, MAGIC_BYTES_KEY@)->0)))
    }
}

/// A little-endian unsigned number of `width` bytes at `at`.
pub open spec fn le_value(m: Seq<u8>, at: int, width: nat) -> nat
    decreases width,
{
    if width == 0 {
        0
    } else {
        m[at] as nat + 256 * le_value(m, at + 1, (width - 1) as nat)
    }
}

/// The dimensions that capability blob `m` encodes, or why it holds none.
pub open spec fn decode_dimensions(m: Seq<u8>) -> Result<ParsedDeviceInfo, DeviceInfoError> {
    if m.len() < MIN_MAGIC_LEN {
        Err(DeviceInfoError::TooShort)
    } else if m[0] as int != m.len() {
        Err(DeviceInfoError::LengthMismatch)
    } else {
        Ok(
            ParsedDeviceInfo {
                x_max: le_value(m, 2, 3) as u32,
                y_max: le_value(m, 5, 3) as u32,
                pres_max: le_value(m, 8, 2) as u16,
                resolution: le_value(m, 10, 2) as u16,
                num_btns: m[13],
            },
        )
    }
}

/// A blob that [`DeviceInfo::parse`] accepts.
pub open spec fn is_valid_blob(m: Seq<u8>) -> bool {
    m.len() >= MIN_MAGIC_LEN && m[0] as int == m.len()
}

/// Decoding dimensions is a function of the blob alone: every valid blob
/// decodes, and two decodings of one blob give the same dimensions.
pub proof fn lemma_decoding_deterministic(a: Seq<u8>, b: Seq<u8>)
    requires
        is_valid_blob(a),
        a == b,
    ensures
        decode_dimensions(a) is Ok,
        decode_dimensions(a) == decode_dimensions(b),
{
}

/// Whether every `key=value` line of `s` has a quoted value.
fn all_lines_quoted(s: &Vec<char>) -> (r: bool)
    ensures
        r == all_quoted(text_lines(s@)),
{
    let mut pos: usize = 0;
    proof {
        assert(s@.skip(0) =~= s@);
    }
    while pos < s.len()
        invariant
            pos <= s.len(),
            all_quoted(text_lines(s@)) == all_quoted(text_lines(s@.skip(pos as int))),
        decreases s.len() - pos,
    {
        let (end, next) = next_line(s, pos);
        let ghost line = s@.subrange(pos as int, end as int);
        let ghost rest = text_lines(s@.skip(next as int));
        let eq = find_char(s, '=', pos, end);
        proof {
            assert((seq![line] + rest)[0] == line);
            assert((seq![line] + rest).skip(1) =~= rest);
            entry_at(s, pos, end, eq);
        }
        if eq < end {
            let quoted = end - eq >= 3 && s[eq + 1] == '"' && s[end - 1] == '"';
            if !quoted {
                return false;
            }
        }
        pos = next;
    }
    proof {
        assert(s@.skip(pos as int) =~= Seq::<char>::empty());
    }
    true
}

/// What [`line_entry`] makes of `s[pos..end]`, given that `eq` is where
/// [`find_char`] found the first `=` in it.
proof fn entry_at(s: &Vec<char>, pos: usize, end: usize, eq: usize)
    requires
        pos <= eq <= end <= s.len(),
        eq < end ==> s@[eq as int] == '=',
        forall|j: int| pos <= j < eq ==> s@[j] != '=',
    ensures
        eq == end ==> line_entry(s@.subrange(pos as int, end as int)) is None,
        eq < end ==> line_entry(s@.subrange(pos as int, end as int)) == Some(
            (s@.subrange(pos as int, eq as int), s@.subrange(eq + 1, end as int)),
        ),
{
    let line = s@.subrange(pos as int, end as int);
    if eq < end {
        assert(is_first_index(line, '=', eq - pos));
        lemma_index_of_found(line, '=', eq - pos);
        assert(line.take(eq - pos) =~= s@.subrange(pos as int, eq as int));
        assert(line.skip(eq - pos + 1) =~= s@.subrange(eq + 1, end as int));
    } else {
        lemma_index_of_absent(line, '=');
    }
}

/// Where the value of the first line of `s` whose key is `key` stands, without
/// its quotes.
fn find_value(s: &Vec<char>, key: &Vec<char>) -> (r: Option<(usize, usize)>)
    requires
        all_quoted(text_lines(s@)),
    ensures
        r is None ==> lookup(text_lines(s@), key@) is None,
        r matches Some(v) ==> v.0 <= v.1 <= s.len() && lookup(text_lines(s@), key@) == Some(
            s@.subrange(v.0 as int, v.1 as int),
        ),
{
    let mut pos: usize = 0;
    proof {
        assert(s@.skip(0) =~= s@);
    }
    while pos < s.len()
        invariant
            pos <= s.len(),
            all_quoted(text_lines(s@.skip(pos as int))),
            lookup(text_lines(s@), key@) == lookup(text_lines(s@.skip(pos as int)), key@),
        decreases s.len() - pos,
    {
        let (end, next) = next_line(s, pos);
        let ghost line = s@.subrange(pos as int, end as int);
        let ghost rest = text_lines(s@.skip(next as int));
        let eq = find_char(s, '=', pos, end);
        proof {
            assert((seq![line] + rest)[0] == line);
            assert((seq![line] + rest).skip(1) =~= rest);
            entry_at(s, pos, end, eq);
        }
        if eq < end && range_equals(s, pos, eq, key) {
            proof {
                assert(unquote(s@.subrange(eq + 1, end as int)) =~= s@.subrange(
                    eq + 2,
                    end - 1,
                ));
            }
            return Some((eq + 2, end - 1));
        }
        pos = next;
    }
    proof {
        assert(s@.skip(pos as int) =~= Seq::<char>::empty());
    }
    None
}

impl DeviceInfo {
    /// Reads capability text: `KEY="VALUE"` lines, of which the firmware
    /// identifier and the hex capability blob are required. Where a key comes
    /// twice, its first line counts.
    pub fn from_str(text: &str) -> (r: Result<DeviceInfo, DeviceInfoError>)
        ensures
            r matches Ok(info) ==> device_info_from_text(text@) == Ok::<_, DeviceInfoError>(info@),
            r matches Err(e) ==> device_info_from_text(text@) == Err::<(Seq<char>, Seq<u8>), _>(e),
    {
        let s = chars_of(text);
        if !all_lines_quoted(&s) {
            return Err(DeviceInfoError::MalformedQuoting);
        }
        if find_value(&s, &chars_of(PAD_MODE_KEY)).is_some() {
            return Err(DeviceInfoError::UnsupportedProtocol);
        }
        let firmware = match find_value(&s, &chars_of(FIRMWARE_ID_KEY)) {
            Some(v) => v,
            None => return Err(DeviceInfoError::MissingField(CapabilityKey::FirmwareId)),
        };
        let magic = match find_value(&s, &chars_of(MAGIC_BYTES_KEY)) {
            Some(v) => v,
            None => return Err(DeviceInfoError::MissingField(CapabilityKey::MagicBytes)),
        };
        let magic_text = text.substring_char(magic.0, magic.1);
        match decode_hex(magic_text) {
            Ok(magic_bytes) => Ok(
                DeviceInfo {
                    firmware: text.substring_char(firmware.0, firmware.1).to_owned(),
                    magic_bytes,
                },
            ),
            Err(_) => Err(DeviceInfoError::InvalidHex),
        }
    }

    /// The tablet's dimensions, decoded from its capability blob.
    pub fn parse(&self) -> (r: Result<ParsedDeviceInfo, DeviceInfoError>)
        ensures
            r == decode_dimensions(self.magic_bytes@),
    {
        let m = &self.magic_bytes;
        if m.len() < MIN_MAGIC_LEN {
            return Err(DeviceInfoError::TooShort);
        }
        if m[0] as usize != m.len() {
            return Err(DeviceInfoError::LengthMismatch);
        }
        proof {
            reveal_with_fuel(le_value, 4);
        }
        Ok(
            ParsedDeviceInfo {
                x_max: m[2] as u32 + 256 * m[3] as u32 + 65536 * m[4] as u32,
                y_max: m[5] as u32 + 256 * m[6] as u32 + 65536 * m[7] as u32,
                pres_max: m[8] as u16 + 256 * m[9] as u16,
                resolution: m[10] as u16 + 256 * m[11] as u16,
                num_btns: m[13],
            },
        )
    }
}

} // verus!
