//! The HID report descriptor that a tablet's dimensions call for.
//!
//! It declares two reports, each of [`REPORT_SIZE`] bytes with its id:
//!
//! * the pad report: one bit per button, button 1 in the lowest bit, padded
//!   to whole bytes; then the top wheel and the bottom wheel, one signed byte
//!   each, -1 to 1; then constant padding;
//! * the pen report: a byte of switches (tip, barrel, secondary barrel in
//!   bits 0 to 2, in range in bit 7); X, Y and pressure, 16 bits each; X tilt
//!   and Y tilt, one signed byte each, -60 to 60; then constant padding.
//!
//! Each axis declares its physical size in inches, as its logical maximum
//! over the resolution, at the finest power of ten (down to 10^-8 inch) at
//! which that size still fits a descriptor item.
use vstd::prelude::*;

verus! {

/// Size of every report, its id included.
pub const REPORT_SIZE: usize = 12;

pub const PAD_REPORT_ID: u8 = 1;

pub const PEN_REPORT_ID: u8 = 2;

/// The most buttons that the pad report's frame has room for: the id and the
/// two wheels leave nine bytes.
pub const MAX_PAD_BUTTONS: u8 = 72;

/// A tablet's dimensions, as its capability blob gives them.
#[derive(Debug, Clone, Copy, PartialEq, Eq, Structural)]
pub struct ParsedDeviceInfo {
    pub x_max: u32,
    pub y_max: u32,
    pub pres_max: u16,
    pub resolution: u16,
    pub num_btns: u8,
}

/// The number of buttons that the pad report declares.
pub open spec fn declared_buttons(d: ParsedDeviceInfo) -> u8 {
    if d.num_btns <= MAX_PAD_BUTTONS {
        d.num_btns
    } else {
        MAX_PAD_BUTTONS
    }
}

/// The number of bytes that the pad report's buttons take.
pub open spec fn button_bytes(d: ParsedDeviceInfo) -> u8 {
    ((declared_buttons(d) + 7) / 8) as u8
}

/// The finest precision that an axis's physical size is declared at: in
/// units of 10^-8 inch.
pub const FINEST_EXPONENT: u8 = 8;

/// The largest value that a descriptor item holds.
pub const MAX_EXTENT: u32 = 0x7fff_ffff;

pub open spec fn pow10(k: nat) -> nat
    decreases k,
{
    if k == 0 {
        1
    } else {
        10 * pow10((k - 1) as nat)
    }
}

/// The physical size of an axis of `logical_max` units at `resolution`
/// units per inch, in units of 10^-k inch, rounded down.
pub open spec fn scaled_extent(logical_max: u32, resolution: u16, k: nat) -> int {
    logical_max * pow10(k) / resolution as int
}

/// The finest precision, at most 10^-k inch, at which the size still fits
/// a descriptor item (whole inches where none does).
pub open spec fn finest_exponent_from(logical_max: u32, resolution: u16, k: nat) -> nat
    decreases k,
{
    if k == 0 || scaled_extent(logical_max, resolution, k) <= MAX_EXTENT {
        k
    } else {
        finest_exponent_from(logical_max, resolution, (k - 1) as nat)
    }
}

/// The precision an axis's physical size is declared at: 10^-k inch for the
/// `k` returned. No resolution leaves the size undeclared, in whole inches.
pub open spec fn axis_exponent(logical_max: u32, resolution: u16) -> nat {
    if resolution == 0 {
        0
    } else {
        finest_exponent_from(logical_max, resolution, FINEST_EXPONENT as nat)
    }
}

/// The physical maximum declared for an axis: its size in units of
/// 10^-[`axis_exponent`] inch, rounded down and capped at [`MAX_EXTENT`];
/// 0 (undeclared) where there is no resolution.
pub open spec fn physical_extent(logical_max: u32, resolution: u16) -> u32 {
    if resolution == 0 {
        0
    } else if scaled_extent(logical_max, resolution, axis_exponent(logical_max, resolution))
        > MAX_EXTENT {
        MAX_EXTENT
    } else {
        scaled_extent(logical_max, resolution, axis_exponent(logical_max, resolution)) as u32
    }
}

/// The byte of a Unit Exponent item for 10^-k: four bits, two's complement.
pub open spec fn exponent_byte(k: nat) -> u8 {
    if k == 0 {
        0
    } else {
        (16 - k) as u8
    }
}

/// What the descriptor declares of an axis's physical size: the exponent
/// and the physical maximum.
pub open spec fn physical_size(logical_max: u32, resolution: u16) -> (nat, u32) {
    (axis_exponent(logical_max, resolution), physical_extent(logical_max, resolution))
}

/// The four bytes of `v`, least significant first.
pub open spec fn le32(v: u32) -> Seq<u8> {
    seq![
        (v & 0xff) as u8,
        ((v >> 8u32) & 0xff) as u8,
        ((v >> 16u32) & 0xff) as u8,
        (v >> 24u32) as u8,
    ]
}

/// The pad report's collection, for `n` buttons in `b` bytes.
pub open spec fn pad_collection(n: u8, b: u8) -> Seq<u8> {
    seq![
        0x05, 0x01, // Usage Page (Generic Desktop)
        0x09, 0x07, // Usage (Keypad)
        0xa1, 0x01, // Collection (Application)
        0x85, PAD_REPORT_ID, // Report ID
        0x05, 0x0d, // Usage Page (Digitizers)
        0x09, 0x39, // Usage (Tablet Function Keys)
        0xa0, // Collection (Physical)
        0x05, 0x09, // Usage Page (Button)
        0x19, 0x01, // Usage Minimum (1)
        0x29, n, // Usage Maximum (n)
        0x15, 0x00, // Logical Minimum (0)
        0x25, 0x01, // Logical Maximum (1)
        0x75, 0x01, // Report Size (1)
        0x95, n, // Report Count (n)
        0x81, 0x02, // Input (Data, Variable, Absolute)
        0x95, (8 * b - n) as u8, // Report Count (up to a whole byte)
        0x81, 0x03, // Input (Constant)
        0x05, 0x01, // Usage Page (Generic Desktop)
        0x09, 0x38, // Usage (Wheel)
        0x09, 0x37, // Usage (Dial)
        0x15, 0xff, // Logical Minimum (-1)
        0x25, 0x01, // Logical Maximum (1)
        0x75, 0x08, // Report Size (8)
        0x95, 0x02, // Report Count (2)
        0x81, 0x06, // Input (Data, Variable, Relative)
        0x95, (9 - b) as u8, // Report Count (rest of the frame)
        0x81, 0x03, // Input (Constant)
        0xc0, // End Collection
        0xc0, // End Collection
    ]
}

/// The pen report's collection up to the X axis's unit exponent.
pub open spec fn pen_head() -> Seq<u8> {
    seq![
        0x05, 0x0d, // Usage Page (Digitizers)
        0x09, 0x02, // Usage (Pen)
        0xa1, 0x01, // Collection (Application)
        0x85, PEN_REPORT_ID, // Report ID
        0x09, 0x20, // Usage (Stylus)
        0xa0, // Collection (Physical)
        0x09, 0x42, // Usage (Tip Switch)
        0x09, 0x44, // Usage (Barrel Switch)
        0x09, 0x5a, // Usage (Secondary Barrel Switch)
        0x15, 0x00, // Logical Minimum (0)
        0x25, 0x01, // Logical Maximum (1)
        0x75, 0x01, // Report Size (1)
        0x95, 0x03, // Report Count (3)
        0x81, 0x02, // Input (Data, Variable, Absolute)
        0x95, 0x04, // Report Count (4)
        0x81, 0x03, // Input (Constant)
        0x09, 0x32, // Usage (In Range)
        0x95, 0x01, // Report Count (1)
        0x81, 0x02, // Input (Data, Variable, Absolute)
        0x05, 0x01, // Usage Page (Generic Desktop)
        0x65, 0x13, // Unit (Inch)
        0x75, 0x10, // Report Size (16)
        0x09, 0x30, // Usage (X)
        0x55, // Unit Exponent (1 byte follows)
    ]
}

/// Between the X axis's physical maximum and the Y axis's unit exponent.
pub open spec fn pen_y_head() -> Seq<u8> {
    seq![
        0x81, 0x02, // Input (Data, Variable, Absolute)
        0x09, 0x31, // Usage (Y)
        0x55, // Unit Exponent (1 byte follows)
    ]
}

/// An axis from its unit exponent on: Logical Maximum, Physical Maximum.
pub open spec fn axis_items(logical_max: u32, resolution: u16) -> Seq<u8> {
    seq![exponent_byte(axis_exponent(logical_max, resolution)), 0x27u8] + le32(logical_max) + seq![
        0x47u8,
    ] + le32(physical_extent(logical_max, resolution))
}

/// Between the Y axis's physical maximum and the pressure's logical maximum.
pub open spec fn pen_pressure_head() -> Seq<u8> {
    seq![
        0x81, 0x02, // Input (Data, Variable, Absolute)
        0x05, 0x0d, // Usage Page (Digitizers)
        0x65, 0x00, // Unit (None)
        0x55, 0x00, // Unit Exponent (0)
        0x45, 0x00, // Physical Maximum (0)
        0x09, 0x30, // Usage (Tip Pressure)
        0x27, // Logical Maximum (4 bytes follow)
    ]
}

/// The pen report's collection after the pressure's logical maximum.
pub open spec fn pen_tail() -> Seq<u8> {
    seq![
        0x81, 0x02, // Input (Data, Variable, Absolute)
        0x65, 0x14, // Unit (Degrees)
        0x09, 0x3d, // Usage (X Tilt)
        0x09, 0x3e, // Usage (Y Tilt)
        0x15, 0xc4, // Logical Minimum (-60)
        0x25, 0x3c, // Logical Maximum (60)
        0x35, 0xc4, // Physical Minimum (-60)
        0x45, 0x3c, // Physical Maximum (60)
        0x75, 0x08, // Report Size (8)
        0x95, 0x02, // Report Count (2)
        0x81, 0x02, // Input (Data, Variable, Absolute)
        0x95, 0x02, // Report Count (2)
        0x81, 0x03, // Input (Constant)
        0xc0, // End Collection
        0xc0, // End Collection
    ]
}

/// The report descriptor for a tablet of dimensions `d`.
pub open spec fn report_descriptor(d: ParsedDeviceInfo) -> Seq<u8> {
    pad_collection(declared_buttons(d), button_bytes(d)) + pen_head() + axis_items(
        d.x_max,
        d.resolution,
    ) + pen_y_head() + axis_items(d.y_max, d.resolution) + pen_pressure_head() + le32(
        d.pres_max as u32,
    ) + pen_tail()
}

/// Where the pad report's button count stands in the descriptor.
pub const BUTTON_COUNT_AT: usize = 26;

/// Where the X axis's unit exponent stands in the descriptor.
pub const X_EXPONENT_AT: usize = 101;

/// Where the X axis's physical maximum starts in the descriptor.
pub const X_PHYSICAL_AT: usize = 108;

/// Where the Y axis's unit exponent stands in the descriptor.
pub const Y_EXPONENT_AT: usize = 117;

/// Where the Y axis's physical maximum starts in the descriptor.
pub const Y_PHYSICAL_AT: usize = 124;

fn le32_bytes(v: u32) -> (r: Vec<u8>)
    ensures
        r@ == le32(v),
{
    vec![(v & 0xff) as u8, ((v >> 8) & 0xff) as u8, ((v >> 16) & 0xff) as u8, (v >> 24) as u8]
}

proof fn lemma_le32_injective(a: u32, b: u32)
    requires
        le32(a) == le32(b),
    ensures
        a == b,
{
    assert(le32(a)[0] == le32(b)[0]);
    assert(le32(a)[1] == le32(b)[1]);
    assert(le32(a)[2] == le32(b)[2]);
    assert(le32(a)[3] == le32(b)[3]);
    assert(((a & 0xff) as u8 == (b & 0xff) as u8 && ((a >> 8u32) & 0xff) as u8 == ((b >> 8u32)
        & 0xff) as u8 && ((a >> 16u32) & 0xff) as u8 == ((b >> 16u32) & 0xff) as u8 && (a
        >> 24u32) as u8 == (b >> 24u32) as u8) ==> a == b) by (bit_vector);
}

proof fn lemma_finest_exponent_bound(logical_max: u32, resolution: u16, k: nat)
    ensures
        finest_exponent_from(logical_max, resolution, k) <= k,
    decreases k,
{
    if k > 0 {
        lemma_finest_exponent_bound(logical_max, resolution, (k - 1) as nat);
    }
}

/// The exponent of an axis is at most [`FINEST_EXPONENT`], so its byte tells
/// it apart from every other.
proof fn lemma_exponent_byte_injective(a: u32, ra: u16, b: u32, rb: u16)
    requires
        exponent_byte(axis_exponent(a, ra)) == exponent_byte(axis_exponent(b, rb)),
    ensures
        axis_exponent(a, ra) == axis_exponent(b, rb),
{
    lemma_finest_exponent_bound(a, ra, FINEST_EXPONENT as nat);
    lemma_finest_exponent_bound(b, rb, FINEST_EXPONENT as nat);
}

/// Where the fields that the dimensions decide stand in the descriptor.
pub proof fn lemma_descriptor_layout(d: ParsedDeviceInfo)
    ensures
        report_descriptor(d)[BUTTON_COUNT_AT as int] == declared_buttons(d),
        report_descriptor(d)[X_EXPONENT_AT as int] == exponent_byte(
            axis_exponent(d.x_max, d.resolution),
        ),
        report_descriptor(d).subrange(X_PHYSICAL_AT as int, X_PHYSICAL_AT + 4) == le32(
            physical_extent(d.x_max, d.resolution),
        ),
        report_descriptor(d)[Y_EXPONENT_AT as int] == exponent_byte(
            axis_exponent(d.y_max, d.resolution),
        ),
        report_descriptor(d).subrange(Y_PHYSICAL_AT as int, Y_PHYSICAL_AT + 4) == le32(
            physical_extent(d.y_max, d.resolution),
        ),
{
    let n = declared_buttons(d);
    let b = button_bytes(d);
    let ax = axis_items(d.x_max, d.resolution);
    let ay = axis_items(d.y_max, d.resolution);
    let p0 = pad_collection(n, b) + pen_head();
    let p1 = p0 + ax + pen_y_head();
    let p2 = p1 + ay;
    assert(pad_collection(n, b).len() == 55);
    assert(pen_head().len() == 46);
    assert(ax.len() == 11);
    assert(ay.len() == 11);
    assert(p0.len() == 101);
    assert(p1.len() == 117);
    assert(p2.len() == 128);
    assert(report_descriptor(d).subrange(0, 128) =~= p2);
    assert(ax.subrange(7, 11) =~= le32(physical_extent(d.x_max, d.resolution)));
    assert(ay.subrange(7, 11) =~= le32(physical_extent(d.y_max, d.resolution)));
    assert(p2.subrange(108, 112) =~= ax.subrange(7, 11));
    assert(p2.subrange(124, 128) =~= ay.subrange(7, 11));
    assert(report_descriptor(d).subrange(108, 112) =~= p2.subrange(108, 112));
    assert(report_descriptor(d).subrange(124, 128) =~= p2.subrange(124, 128));
    assert(p2[101] == ax[0]);
    assert(p2[117] == ay[0]);
    assert(report_descriptor(d)[101] == p2[101]);
    assert(report_descriptor(d)[117] == p2[117]);
    assert(report_descriptor(d)[26] == p2[26]);
    assert(p2[26] == pad_collection(n, b)[26]);
}

/// The descriptor follows the dimensions. Tablets that differ in the number
/// of buttons the pad report can declare get different descriptors; so do
/// tablets whose axis's physical size (logical maximum over resolution)
/// differs at the precision it is declared at, the finest of 10^-8 inch and
/// the coarser ones that still fit a descriptor item.
pub proof fn lemma_descriptor_distinguishes(a: ParsedDeviceInfo, b: ParsedDeviceInfo)
    ensures
        declared_buttons(a) != declared_buttons(b) ==> report_descriptor(a) != report_descriptor(b),
        physical_size(a.x_max, a.resolution) != physical_size(b.x_max, b.resolution)
            ==> report_descriptor(a) != report_descriptor(b),
        physical_size(a.y_max, a.resolution) != physical_size(b.y_max, b.resolution)
            ==> report_descriptor(a) != report_descriptor(b),
{
    lemma_descriptor_layout(a);
    lemma_descriptor_layout(b);
    if report_descriptor(a) == report_descriptor(b) {
        lemma_exponent_byte_injective(a.x_max, a.resolution, b.x_max, b.resolution);
        lemma_exponent_byte_injective(a.y_max, a.resolution, b.y_max, b.resolution);
        lemma_le32_injective(
            physical_extent(a.x_max, a.resolution),
            physical_extent(b.x_max, b.resolution),
        );
        lemma_le32_injective(
            physical_extent(a.y_max, a.resolution),
            physical_extent(b.y_max, b.resolution),
        );
    }
}

/// The unit exponent byte and the physical maximum of an axis.
fn physical_axis(logical_max: u32, resolution: u16) -> (r: (u8, u32))
    ensures
        r.0 == exponent_byte(axis_exponent(logical_max, resolution)),
        r.1 == physical_extent(logical_max, resolution),
{
    if resolution == 0 {
        return (0, 0);
    }
    let mut k: u8 = FINEST_EXPONENT;
    let mut scale: u64 = 100_000_000;
    proof {
        reveal_with_fuel(pow10, 9);
    }
    loop
        invariant
            resolution > 0,
            k <= FINEST_EXPONENT,
            scale == pow10(k as nat),
            0 < scale <= 100_000_000,
            finest_exponent_from(logical_max, resolution, FINEST_EXPONENT as nat)
                == finest_exponent_from(logical_max, resolution, k as nat),
        decreases k,
    {
        assert(logical_max as u64 * scale <= 0xffff_ffff * 100_000_000) by (nonlinear_arith)
            requires
                logical_max <= 0xffff_ffff,
                scale <= 100_000_000,
        ;
        let extent: u64 = logical_max as u64 * scale / resolution as u64;
        if k == 0 || extent <= MAX_EXTENT as u64 {
            let byte: u8 = if k == 0 {
                0
            } else {
                16 - k
            };
            let capped: u32 = if extent > MAX_EXTENT as u64 {
                MAX_EXTENT
            } else {
                extent as u32
            };
            return (byte, capped);
        }
        k = k - 1;
        scale = scale / 10;
    }
}

fn push_axis(d: &mut Vec<u8>, logical_max: u32, resolution: u16)
    ensures
        final(d)@ == old(d)@ + axis_items(logical_max, resolution),
{
    let (exponent, extent) = physical_axis(logical_max, resolution);
    d.push(exponent);
    d.push(0x27);
    d.append(&mut le32_bytes(logical_max));
    d.push(0x47);
    d.append(&mut le32_bytes(extent));
    assert(d@ =~= old(d)@ + axis_items(logical_max, resolution));
}

impl ParsedDeviceInfo {
    /// The number of buttons that the pad report declares.
    pub fn pad_button_count(&self) -> (r: u8)
        ensures
            r == declared_buttons(*self),
    {
        if self.num_btns <= MAX_PAD_BUTTONS {
            self.num_btns
        } else {
            MAX_PAD_BUTTONS
        }
    }

    /// The number of bytes that the pad report's buttons take.
    pub fn pad_button_bytes(&self) -> (r: u8)
        ensures
            r == button_bytes(*self),
            r <= 9,
    {
        (self.pad_button_count() + 7) / 8
    }

    /// The report descriptor for a tablet of these dimensions.
    pub fn descriptor(&self) -> (r: Vec<u8>)
        ensures
            r@ == report_descriptor(*self),
    {
        let n = self.pad_button_count();
        let b = self.pad_button_bytes();
        let pad_bits = 8 * b - n;
        let frame_rest = 9 - b;
        let mut d: Vec<u8> = vec![
            0x05, 0x01, 0x09, 0x07, 0xa1, 0x01, 0x85, PAD_REPORT_ID, 0x05, 0x0d, 0x09, 0x39,
            0xa0, 0x05, 0x09, 0x19, 0x01, 0x29, n, 0x15, 0x00, 0x25, 0x01, 0x75, 0x01, 0x95, n,
            0x81, 0x02, 0x95, pad_bits, 0x81, 0x03, 0x05, 0x01, 0x09, 0x38, 0x09, 0x37, 0x15,
            0xff, 0x25, 0x01, 0x75, 0x08, 0x95, 0x02, 0x81, 0x06, 0x95, frame_rest, 0x81, 0x03, 0xc0,
            0xc0,
        ];
        let mut head: Vec<u8> = vec![
            0x05, 0x0d, 0x09, 0x02, 0xa1, 0x01, 0x85, PEN_REPORT_ID, 0x09, 0x20, 0xa0, 0x09,
            0x42, 0x09, 0x44, 0x09, 0x5a, 0x15, 0x00, 0x25, 0x01, 0x75, 0x01, 0x95, 0x03, 0x81,
            0x02, 0x95, 0x04, 0x81, 0x03, 0x09, 0x32, 0x95, 0x01, 0x81, 0x02, 0x05, 0x01, 0x65,
            0x13, 0x75, 0x10, 0x09, 0x30, 0x55,
        ];
        d.append(&mut head);
        push_axis(&mut d, self.x_max, self.resolution);
        d.append(&mut vec![0x81, 0x02, 0x09, 0x31, 0x55]);
        push_axis(&mut d, self.y_max, self.resolution);
        d.append(
            &mut vec![0x81, 0x02, 0x05, 0x0d, 0x65, 0x00, 0x55, 0x00, 0x45, 0x00, 0x09, 0x30, 0x27],
        );
        d.append(&mut le32_bytes(self.pres_max as u32));
        d.append(
            &mut vec![
                0x81, 0x02, 0x65, 0x14, 0x09, 0x3d, 0x09, 0x3e, 0x15, 0xc4, 0x25, 0x3c, 0x35,
                0xc4, 0x45, 0x3c, 0x75, 0x08, 0x95, 0x02, 0x81, 0x02, 0x95, 0x02, 0x81, 0x03,
                0xc0, 0xc0,
            ],
        );
        proof {
            assert(d@ =~= report_descriptor(*self));
        }
        d
    }
}

} // verus!
