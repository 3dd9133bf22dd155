use vstd::prelude::*;

use crate::color::Color;
use crate::descriptor::{DisplayVariant, PanelDescriptor};
use crate::display::{
    grid_view, send_view, send_view_no_data, steps_view, BusPolicy, HwStep, InkyDisplay,
    SpiPacket, StepView, WaitMethod,
};
use crate::errors::InkyError;

verus! {

broadcast use crate::display::lemma_steps_view_push;

// Register opcodes of the two-color controller, from its datasheet.
pub const DATA_ENTRY_MODE: u8 = 0x11;

pub const DISPLAY_UPDATE_SEQUENCE: u8 = 0x22;

pub const DUMMY_LINE_PERIOD: u8 = 0x3A;

pub const ENTER_DEEP_SLEEP: u8 = 0x10;

pub const GS_TRANSITION: u8 = 0x3C;

pub const GATE_DRIVING_VOLTAGE: u8 = 0x03;

pub const GATE_LINE_WIDTH: u8 = 0x3B;

pub const GATE_SETTING: u8 = 0x01;

pub const SET_ANALOG_BLOCK_CONTROL: u8 = 0x74;

pub const SET_DIGITAL_BLOCK_CONTROL: u8 = 0x7E;

pub const SET_LUT: u8 = 0x32;

pub const SET_RAM_X_POINTER_START: u8 = 0x4E;

pub const SET_RAM_X_START_END: u8 = 0x44;

pub const SET_RAM_Y_POINTER_START: u8 = 0x4F;

pub const SET_RAM_Y_START_END: u8 = 0x45;

pub const SOFT_RESET: u8 = 0x12;

pub const SOURCE_DRIVING_VOLTAGE: u8 = 0x04;

pub const TRIGGER_DISPLAY_UPDATE: u8 = 0x20;

pub const VCOM_REGISTER: u8 = 0x2C;

pub const SET_BW_BUFFER: u8 = 0x24;

/// The family's default busy-wait bound, used when a caller supplies no
/// timeout; the refresh synchronization point carries its own, far longer
/// bound in the update plan.
pub const WHAT_DEFAULT_TIMEOUT_MS: u64 = 1000;

/// The waveform look-up table for a plain black/white refresh.
pub open spec fn lut_black_spec() -> Seq<u8> {
    seq![
        0x48u8, 0xA0, 0x10, 0x10, 0x13, 0x00, 0x00,
        0x48, 0xA0, 0x80, 0x00, 0x03, 0x00, 0x00,
        0x48, 0xA5, 0x00, 0xBB, 0x00, 0x00, 0x00,
        0x48, 0xA5, 0x00, 0xBB, 0x00, 0x00, 0x00,
        0x00, 0x00, 0x00, 0x00, 0x00, 0x00, 0x00,
        0x10, 0x04, 0x04, 0x04, 0x04,
        0x10, 0x04, 0x04, 0x04, 0x04,
        0x04, 0x08, 0x08, 0x10, 0x10,
        0x00, 0x00, 0x00, 0x00, 0x00,
        0x00, 0x00, 0x00, 0x00, 0x00,
        0x00, 0x00, 0x00, 0x00, 0x00,
        0x00, 0x00, 0x00, 0x00, 0x00,
    ]
}

/// The waveform look-up table as bytes to send.
pub fn lut_black() -> (r: Vec<u8>)
    ensures
        r@ == lut_black_spec(),
{
    let r: Vec<u8> = vec![
        0x48u8, 0xA0, 0x10, 0x10, 0x13, 0x00, 0x00,
        0x48, 0xA0, 0x80, 0x00, 0x03, 0x00, 0x00,
        0x48, 0xA5, 0x00, 0xBB, 0x00, 0x00, 0x00,
        0x48, 0xA5, 0x00, 0xBB, 0x00, 0x00, 0x00,
        0x00, 0x00, 0x00, 0x00, 0x00, 0x00, 0x00,
        0x10, 0x04, 0x04, 0x04, 0x04,
        0x10, 0x04, 0x04, 0x04, 0x04,
        0x04, 0x08, 0x08, 0x10, 0x10,
        0x00, 0x00, 0x00, 0x00, 0x00,
        0x00, 0x00, 0x00, 0x00, 0x00,
        0x00, 0x00, 0x00, 0x00, 0x00,
        0x00, 0x00, 0x00, 0x00, 0x00,
    ];
    proof {
        assert(r@ =~= lut_black_spec());
    }
    r
}

/// This panel shows two color classes: black, and everything else.
pub open spec fn what_class(c: Color) -> u8 {
    if c == Color::Black {
        0u8
    } else {
        1u8
    }
}

/// The color class of a pixel on this panel.
pub fn as_u8(color: &Color) -> (r: u8)
    ensures
        r == what_class(*color),
        r <= 1,
{
    if !matches!(color, Color::Black) {
        1
    } else {
        0
    }
}

/// The first `n` rows of a grid laid out end to end, row-major.
pub open spec fn flat_prefix(grid: Seq<Seq<Color>>, n: int) -> Seq<Color>
    decreases n,
{
    if n <= 0 {
        Seq::empty()
    } else {
        flat_prefix(grid, n - 1) + grid[n - 1]
    }
}

/// The whole grid laid out end to end, row-major.
pub open spec fn flat_grid(grid: Seq<Seq<Color>>) -> Seq<Color> {
    flat_prefix(grid, grid.len() as int)
}

/// Bit `i` of the packed stream: the color class of pixel `i`, and zero
/// beyond the end of the pixels (the padding of the final byte).
pub open spec fn mono_bit(f: Seq<Color>, i: int) -> u8 {
    if 0 <= i < f.len() {
        what_class(f[i])
    } else {
        0u8
    }
}

/// The value of bit position `k` within a byte.
pub open spec fn bit_weight(k: int) -> int {
    if k <= 0 {
        1
    } else if k == 1 {
        2
    } else if k == 2 {
        4
    } else if k == 3 {
        8
    } else if k == 4 {
        16
    } else if k == 5 {
        32
    } else if k == 6 {
        64
    } else if k == 7 {
        128
    } else {
        256
    }
}

/// The low `k` bits of byte `j` of the packed stream, least-significant
/// bits filled first.
pub open spec fn mono_byte_prefix(f: Seq<Color>, j: int, k: int) -> int
    decreases k,
{
    if k <= 0 {
        0
    } else {
        mono_byte_prefix(f, j, k - 1) + mono_bit(f, 8 * j + (k - 1)) * bit_weight(k - 1)
    }
}

/// Byte `j` of the packed stream: pixels `8j` through `8j + 7`.
pub open spec fn mono_byte(f: Seq<Color>, j: int) -> u8 {
    mono_byte_prefix(f, j, 8) as u8
}

/// The pixel stream packed eight pixels to a byte, the final partial byte
/// zero-padded in its unused high bits.
pub open spec fn packed_mono(f: Seq<Color>) -> Seq<u8> {
    Seq::new(((f.len() + 7) / 8) as nat, |j: int| mono_byte(f, j))
}

/// This family's packer accepts every grid.
pub open spec fn what_convert_spec(grid: Seq<Seq<Color>>) -> Result<Seq<u8>, InkyError> {
    Ok(packed_mono(flat_grid(grid)))
}

pub proof fn lemma_flat_prefix_extends(grid: Seq<Seq<Color>>, m: int, q: int)
    requires
        0 <= m <= q <= grid.len(),
    ensures
        flat_prefix(grid, m).len() <= flat_prefix(grid, q).len(),
        forall|t: int|
            0 <= t < flat_prefix(grid, m).len() ==> #[trigger] flat_prefix(grid, q)[t]
                == flat_prefix(grid, m)[t],
    decreases q - m,
{
    if m < q {
        lemma_flat_prefix_extends(grid, m, q - 1);
    }
}

/// Where row `i`, column `j` of the grid lands in the flattened stream.
pub proof fn lemma_flat_index(grid: Seq<Seq<Color>>, i: int, j: int)
    requires
        0 <= i < grid.len(),
        0 <= j < grid[i].len(),
    ensures
        flat_prefix(grid, i).len() + j < flat_grid(grid).len(),
        flat_grid(grid)[flat_prefix(grid, i).len() + j] == grid[i][j],
{
    assert(flat_prefix(grid, i + 1) == flat_prefix(grid, i) + grid[i]);
    assert(flat_prefix(grid, i + 1)[flat_prefix(grid, i).len() + j] == grid[i][j]);
    lemma_flat_prefix_extends(grid, i + 1, grid.len() as int);
}

pub proof fn lemma_mono_byte_prefix_bound(f: Seq<Color>, j: int, k: int)
    requires
        0 <= k <= 8,
    ensures
        0 <= mono_byte_prefix(f, j, k) < bit_weight(k),
    decreases k,
{
    if k > 0 {
        lemma_mono_byte_prefix_bound(f, j, k - 1);
        let b = mono_bit(f, 8 * j + (k - 1));
        assert(b == 0 || b == 1);
        if b == 0 {
            assert(b * bit_weight(k - 1) == 0);
        } else {
            assert(b * bit_weight(k - 1) == bit_weight(k - 1));
        }
        assert(bit_weight(k) == 2 * bit_weight(k - 1));
    }
}

proof fn lemma_shift_weight(p: u8)
    requires
        p < 8,
    ensures
        (1u8 << p) as int == bit_weight(p as int),
{
    if p == 0 {
        assert((1u8 << p) == 1u8) by (bit_vector)
            requires
                p == 0,
        ;
    } else if p == 1 {
        assert((1u8 << p) == 2u8) by (bit_vector)
            requires
                p == 1,
        ;
    } else if p == 2 {
        assert((1u8 << p) == 4u8) by (bit_vector)
            requires
                p == 2,
        ;
    } else if p == 3 {
        assert((1u8 << p) == 8u8) by (bit_vector)
            requires
                p == 3,
        ;
    } else if p == 4 {
        assert((1u8 << p) == 16u8) by (bit_vector)
            requires
                p == 4,
        ;
    } else if p == 5 {
        assert((1u8 << p) == 32u8) by (bit_vector)
            requires
                p == 5,
        ;
    } else if p == 6 {
        assert((1u8 << p) == 64u8) by (bit_vector)
            requires
                p == 6,
        ;
    } else {
        assert((1u8 << p) == 128u8) by (bit_vector)
            requires
                p == 7,
        ;
    }
}

/// Bits at or past the end of the pixel stream add nothing to a byte.
pub proof fn lemma_mono_pad(f: Seq<Color>, j: int, k: int)
    requires
        0 <= k <= 8,
        8 * j + k >= f.len(),
    ensures
        mono_byte_prefix(f, j, 8) == mono_byte_prefix(f, j, k),
    decreases 8 - k,
{
    if k < 8 {
        assert(mono_bit(f, 8 * j + k) == 0);
        assert(mono_byte_prefix(f, j, k + 1) == mono_byte_prefix(f, j, k));
        lemma_mono_pad(f, j, k + 1);
    }
}

/// Bit `i` of the packed output is the color class of pixel `i` of the
/// flattened grid, in row-major order.
pub proof fn lemma_mono_bit_recovered(f: Seq<Color>, i: int)
    requires
        0 <= i < f.len(),
    ensures
        packed_mono(f).len() == (f.len() + 7) / 8,
        (packed_mono(f)[i / 8] >> ((i % 8) as u8)) & 1 == what_class(f[i]),
{
    let j = i / 8;
    let m = (i % 8) as u8;
    assert(0 <= j < packed_mono(f).len());
    let b0 = mono_bit(f, 8 * j);
    let b1 = mono_bit(f, 8 * j + 1);
    let b2 = mono_bit(f, 8 * j + 2);
    let b3 = mono_bit(f, 8 * j + 3);
    let b4 = mono_bit(f, 8 * j + 4);
    let b5 = mono_bit(f, 8 * j + 5);
    let b6 = mono_bit(f, 8 * j + 6);
    let b7 = mono_bit(f, 8 * j + 7);
    assert(mono_byte_prefix(f, j, 0) == 0);
    assert(mono_byte_prefix(f, j, 1) == mono_byte_prefix(f, j, 0) + b0 * 1);
    assert(mono_byte_prefix(f, j, 2) == mono_byte_prefix(f, j, 1) + b1 * 2);
    assert(mono_byte_prefix(f, j, 3) == mono_byte_prefix(f, j, 2) + b2 * 4);
    assert(mono_byte_prefix(f, j, 4) == mono_byte_prefix(f, j, 3) + b3 * 8);
    assert(mono_byte_prefix(f, j, 5) == mono_byte_prefix(f, j, 4) + b4 * 16);
    assert(mono_byte_prefix(f, j, 6) == mono_byte_prefix(f, j, 5) + b5 * 32);
    assert(mono_byte_prefix(f, j, 7) == mono_byte_prefix(f, j, 6) + b6 * 64);
    assert(mono_byte_prefix(f, j, 8) == mono_byte_prefix(f, j, 7) + b7 * 128);
    lemma_mono_byte_prefix_bound(f, j, 8);
    let byte = packed_mono(f)[j];
    assert(byte == mono_byte(f, j));
    assert(byte == b0 + b1 * 2 + b2 * 4 + b3 * 8 + b4 * 16 + b5 * 32 + b6 * 64 + b7 * 128);
    assert(8 * j + (m as int) == i);
    assert(what_class(f[i]) == mono_bit(f, i));
    if m == 0 {
        assert((byte >> m) & 1 == b0) by (bit_vector)
            requires
                m == 0 && byte == b0 + b1 * 2 + b2 * 4 + b3 * 8 + b4 * 16 + b5 * 32 + b6 * 64
                    + b7 * 128 && b0 <= 1 && b1 <= 1 && b2 <= 1 && b3 <= 1 && b4 <= 1 && b5 <= 1
                    && b6 <= 1 && b7 <= 1,
        ;
    } else if m == 1 {
        assert((byte >> m) & 1 == b1) by (bit_vector)
            requires
                m == 1 && byte == b0 + b1 * 2 + b2 * 4 + b3 * 8 + b4 * 16 + b5 * 32 + b6 * 64
                    + b7 * 128 && b0 <= 1 && b1 <= 1 && b2 <= 1 && b3 <= 1 && b4 <= 1 && b5 <= 1
                    && b6 <= 1 && b7 <= 1,
        ;
    } else if m == 2 {
        assert((byte >> m) & 1 == b2) by (bit_vector)
            requires
                m == 2 && byte == b0 + b1 * 2 + b2 * 4 + b3 * 8 + b4 * 16 + b5 * 32 + b6 * 64
                    + b7 * 128 && b0 <= 1 && b1 <= 1 && b2 <= 1 && b3 <= 1 && b4 <= 1 && b5 <= 1
                    && b6 <= 1 && b7 <= 1,
        ;
    } else if m == 3 {
        assert((byte >> m) & 1 == b3) by (bit_vector)
            requires
                m == 3 && byte == b0 + b1 * 2 + b2 * 4 + b3 * 8 + b4 * 16 + b5 * 32 + b6 * 64
                    + b7 * 128 && b0 <= 1 && b1 <= 1 && b2 <= 1 && b3 <= 1 && b4 <= 1 && b5 <= 1
                    && b6 <= 1 && b7 <= 1,
        ;
    } else if m == 4 {
        assert((byte >> m) & 1 == b4) by (bit_vector)
            requires
                m == 4 && byte == b0 + b1 * 2 + b2 * 4 + b3 * 8 + b4 * 16 + b5 * 32 + b6 * 64
                    + b7 * 128 && b0 <= 1 && b1 <= 1 && b2 <= 1 && b3 <= 1 && b4 <= 1 && b5 <= 1
                    && b6 <= 1 && b7 <= 1,
        ;
    } else if m == 5 {
        assert((byte >> m) & 1 == b5) by (bit_vector)
            requires
                m == 5 && byte == b0 + b1 * 2 + b2 * 4 + b3 * 8 + b4 * 16 + b5 * 32 + b6 * 64
                    + b7 * 128 && b0 <= 1 && b1 <= 1 && b2 <= 1 && b3 <= 1 && b4 <= 1 && b5 <= 1
                    && b6 <= 1 && b7 <= 1,
        ;
    } else if m == 6 {
        assert((byte >> m) & 1 == b6) by (bit_vector)
            requires
                m == 6 && byte == b0 + b1 * 2 + b2 * 4 + b3 * 8 + b4 * 16 + b5 * 32 + b6 * 64
                    + b7 * 128 && b0 <= 1 && b1 <= 1 && b2 <= 1 && b3 <= 1 && b4 <= 1 && b5 <= 1
                    && b6 <= 1 && b7 <= 1,
        ;
    } else {
        assert((byte >> m) & 1 == b7) by (bit_vector)
            requires
                m == 7 && byte == b0 + b1 * 2 + b2 * 4 + b3 * 8 + b4 * 16 + b5 * 32 + b6 * 64
                    + b7 * 128 && b0 <= 1 && b1 <= 1 && b2 <= 1 && b3 <= 1 && b4 <= 1 && b5 <= 1
                    && b6 <= 1 && b7 <= 1,
        ;
    }
}

/// A pixel count that is not a multiple of eight leaves the unused high
/// bits of the final byte zero.
pub proof fn lemma_mono_padding(f: Seq<Color>)
    requires
        f.len() % 8 != 0,
    ensures
        packed_mono(f).len() == (f.len() + 7) / 8,
        packed_mono(f).last() >> ((f.len() % 8) as u8) == 0,
{
    let j = f.len() as int / 8;
    let m = (f.len() % 8) as u8;
    assert(packed_mono(f).len() == j + 1);
    let byte = packed_mono(f)[j];
    assert(byte == mono_byte(f, j));
    assert(8 * j + (m as int) == f.len());
    lemma_mono_pad(f, j, m as int);
    lemma_mono_byte_prefix_bound(f, j, m as int);
    lemma_shift_weight(m);
    assert(byte < (1u8 << m));
    assert(byte >> m == 0) by (bit_vector)
        requires
            byte < (1u8 << m) && m < 8,
    ;
}

/// The reset protocol of this controller: pulse the reset line, issue the
/// software-reset opcode, and wait for the panel.
pub open spec fn what_reset_plan() -> Seq<StepView> {
    seq![
        StepView::ResetLow,
        StepView::SleepMs(100),
        StepView::ResetHigh,
        StepView::SleepMs(100),
        send_view_no_data(SOFT_RESET),
        StepView::WaitBusy(Some(1000u64)),
    ]
}

/// A full update: the datasheet's block-control, gate, voltage, timing and
/// addressing-window configuration, the waveform table, the packed buffer,
/// the refresh trigger with its wait, and deep sleep.  The reset is implicit
/// for this family: the sequence starts with configuration directly.
pub open spec fn what_update_plan(width: u16, height: u16, buf: Seq<u8>) -> Seq<StepView> {
    seq![
        send_view(SET_ANALOG_BLOCK_CONTROL, seq![0x54u8]),
        send_view(SET_DIGITAL_BLOCK_CONTROL, seq![0x3Bu8]),
        send_view(
            GATE_SETTING,
            seq![(height % 256) as u8, (height / 256) as u8, 0x00u8],
        ),
        send_view(GATE_DRIVING_VOLTAGE, seq![0x17u8]),
        send_view(SOURCE_DRIVING_VOLTAGE, seq![0x41u8, 0xAC, 0x32]),
        send_view(DUMMY_LINE_PERIOD, seq![0x07u8]),
        send_view(GATE_LINE_WIDTH, seq![0x04u8]),
        send_view(DATA_ENTRY_MODE, seq![0x03u8]),
        send_view(VCOM_REGISTER, seq![0x3Cu8]),
        send_view(GS_TRANSITION, seq![0b00110001u8]),
        send_view(SET_LUT, lut_black_spec()),
        send_view(SET_RAM_X_START_END, seq![0x00u8, (width / 8 - 1) as u8]),
        send_view(
            SET_RAM_Y_START_END,
            seq![0x00u8, 0x00, (height % 256) as u8, (height / 256) as u8],
        ),
        send_view(SET_RAM_X_POINTER_START, seq![0x00u8]),
        send_view(SET_RAM_Y_POINTER_START, seq![0x00u8, 0x00]),
        send_view(SET_BW_BUFFER, buf),
        send_view(DISPLAY_UPDATE_SEQUENCE, seq![0xC7u8]),
        send_view_no_data(TRIGGER_DISPLAY_UPDATE),
        StepView::SleepMs(50),
        StepView::WaitBusy(Some(32000u64)),
        send_view(ENTER_DEEP_SLEEP, seq![0x01u8]),
    ]
}

/// This family always watches for a falling edge on the busy line.  A
/// caller-supplied timeout is honored; when none is given the family
/// default bounds the wait, so it can never block indefinitely.
pub open spec fn what_wait_method(timeout_ms: Option<u64>) -> WaitMethod {
    WaitMethod::EdgeWait {
        rising: false,
        timeout_ms: Some(
            match timeout_ms {
                Some(t) => t,
                None => WHAT_DEFAULT_TIMEOUT_MS,
            },
        ),
    }
}

/// Driver for the two-color / grayscale family.
#[derive(Debug)]
pub struct InkyWhat {
    descriptor: PanelDescriptor,
}

impl InkyDisplay for InkyWhat {
    closed spec fn descriptor(&self) -> PanelDescriptor {
        self.descriptor
    }

    open spec fn wf(&self) -> bool {
        self.descriptor().wf()
    }

    open spec fn supported_variant(v: DisplayVariant) -> bool {
        v == DisplayVariant::What
    }

    open spec fn spec_convert(&self, grid: Seq<Seq<Color>>) -> Result<Seq<u8>, InkyError> {
        what_convert_spec(grid)
    }

    open spec fn spec_reset_plan(&self) -> Seq<StepView> {
        what_reset_plan()
    }

    open spec fn spec_update_plan(&self, buf: Seq<u8>) -> Seq<StepView> {
        what_update_plan(self.descriptor().width, self.descriptor().height, buf)
    }

    open spec fn spec_wait_method(&self, busy_not_ready: bool, timeout_ms: Option<u64>)
        -> WaitMethod {
        what_wait_method(timeout_ms)
    }

    open spec fn spec_bus_policy(&self) -> BusPolicy {
        BusPolicy { uses_chip_select: false, setup_delay_ms: 0 }
    }

    fn new(descriptor: PanelDescriptor) -> (r: Result<Self, InkyError>) {
        if matches!(descriptor.variant, DisplayVariant::What) {
            Ok(InkyWhat { descriptor })
        } else {
            Err(InkyError::UnsupportedVariant)
        }
    }

    fn convert(&self, buf: &Vec<Vec<Color>>) -> (r: Result<Vec<u8>, InkyError>) {
        let ghost grid = grid_view(buf@);
        let ghost f = flat_grid(grid);
        let mut result: Vec<u8> = Vec::new();
        let mut bit_pos: u8 = 0;
        let mut cur_byte: u8 = 0;
        let ghost mut n: int = 0;
        let mut i: usize = 0;
        while i < buf.len()
            invariant
                grid == grid_view(buf@),
                f == flat_grid(grid),
                grid.len() == buf@.len(),
                0 <= i <= grid.len(),
                n == flat_prefix(grid, i as int).len(),
                0 <= n <= f.len(),
                bit_pos as int == n % 8,
                result@.len() == n / 8,
                result@ =~= packed_mono(f).take(n / 8),
                cur_byte as int == mono_byte_prefix(f, n / 8, bit_pos as int),
            decreases grid.len() - i,
        {
            let row = &buf[i];
            proof {
                assert(row@ == grid[i as int]);
            }
            let mut j: usize = 0;
            while j < row.len()
                invariant
                    grid == grid_view(buf@),
                    f == flat_grid(grid),
                    grid.len() == buf@.len(),
                    0 <= i < grid.len(),
                    row@ == grid[i as int],
                    0 <= j <= row@.len(),
                    n == flat_prefix(grid, i as int).len() + j,
                    0 <= n <= f.len(),
                    bit_pos as int == n % 8,
                    result@.len() == n / 8,
                    result@ =~= packed_mono(f).take(n / 8),
                    cur_byte as int == mono_byte_prefix(f, n / 8, bit_pos as int),
                decreases row@.len() - j,
            {
                proof {
                    lemma_flat_index(grid, i as int, j as int);
                }
                let class = as_u8(&row[j]);
                proof {
                    lemma_mono_byte_prefix_bound(f, n / 8, bit_pos as int);
                    lemma_shift_weight(bit_pos);
                    let cb = cur_byte;
                    let cl = class;
                    let p = bit_pos;
                    assert((cb | (cl << p)) == cb + cl * (1u8 << p) && cb + cl * (1u8 << p)
                        < 256) by (bit_vector)
                        requires
                            cb < (1u8 << p),
                            cl <= 1,
                            p < 8,
                    ;
                    assert(8 * (n / 8) + (bit_pos as int) == n);
                    assert(mono_bit(f, n) == class);
                    assert(mono_byte_prefix(f, n / 8, bit_pos as int + 1) == mono_byte_prefix(
                        f,
                        n / 8,
                        bit_pos as int,
                    ) + mono_bit(f, n) * bit_weight(bit_pos as int));
                }
                cur_byte = cur_byte | (class << bit_pos);
                bit_pos += 1;
                proof {
                    n = n + 1;
                }
                if bit_pos == 8 {
                    proof {
                        assert(n % 8 == 0);
                        assert(cur_byte as int == mono_byte_prefix(f, (n - 1) / 8, 8));
                        assert((n - 1) / 8 == n / 8 - 1);
                        assert(cur_byte == mono_byte(f, n / 8 - 1));
                        assert(n / 8 <= packed_mono(f).len());
                        assert(packed_mono(f).take(n / 8) =~= packed_mono(f).take(n / 8 - 1)
                            .push(mono_byte(f, n / 8 - 1)));
                    }
                    result.push(cur_byte);
                    cur_byte = 0;
                    bit_pos = 0;
                }
                j += 1;
            }
            i += 1;
            proof {
                let q = i as int;
                assert(flat_prefix(grid, q) == flat_prefix(grid, q - 1) + grid[q - 1]);
            }
        }
        proof {
            assert(n == f.len());
        }
        if bit_pos != 0 {
            proof {
                lemma_mono_pad(f, n / 8, bit_pos as int);
                assert(cur_byte as int == mono_byte_prefix(f, n / 8, 8));
                assert(cur_byte == mono_byte(f, n / 8));
                assert(packed_mono(f).len() == n / 8 + 1);
                assert(packed_mono(f).take(n / 8 + 1) =~= packed_mono(f).take(n / 8).push(
                    mono_byte(f, n / 8),
                ));
            }
            result.push(cur_byte);
        }
        proof {
            assert(result@ =~= packed_mono(f));
        }
        Ok(result)
    }

    fn reset_steps(&self) -> (r: Vec<HwStep>) {
        let mut r: Vec<HwStep> = Vec::new();
        r.push(HwStep::ResetLow);
        r.push(HwStep::SleepMs(100));
        r.push(HwStep::ResetHigh);
        r.push(HwStep::SleepMs(100));
        r.push(HwStep::Send(SpiPacket::no_data(SOFT_RESET)));
        r.push(HwStep::WaitBusy(Some(1000)));
        proof {
            assert(steps_view(r@) =~~= what_reset_plan());
        }
        r
    }

    fn update_steps(&self, buf: Vec<u8>) -> (r: Vec<HwStep>) {
        let ghost b = buf@;
        let width = self.descriptor.width;
        let height = self.descriptor.height;
        let h_lo = (height % 256) as u8;
        let h_hi = (height / 256) as u8;
        let mut r: Vec<HwStep> = Vec::new();
        r.push(HwStep::Send(SpiPacket::with_data(SET_ANALOG_BLOCK_CONTROL, vec![0x54])));
        r.push(HwStep::Send(SpiPacket::with_data(SET_DIGITAL_BLOCK_CONTROL, vec![0x3B])));
        r.push(HwStep::Send(SpiPacket::with_data(GATE_SETTING, vec![h_lo, h_hi, 0x00])));
        r.push(HwStep::Send(SpiPacket::with_data(GATE_DRIVING_VOLTAGE, vec![0x17])));
        r.push(HwStep::Send(SpiPacket::with_data(SOURCE_DRIVING_VOLTAGE, vec![0x41, 0xAC, 0x32])));
        r.push(HwStep::Send(SpiPacket::with_data(DUMMY_LINE_PERIOD, vec![0x07])));
        r.push(HwStep::Send(SpiPacket::with_data(GATE_LINE_WIDTH, vec![0x04])));
        r.push(HwStep::Send(SpiPacket::with_data(DATA_ENTRY_MODE, vec![0x03])));
        r.push(HwStep::Send(SpiPacket::with_data(VCOM_REGISTER, vec![0x3C])));
        r.push(HwStep::Send(SpiPacket::with_data(GS_TRANSITION, vec![0b00110001])));
        r.push(HwStep::Send(SpiPacket::with_data(SET_LUT, lut_black())));
        r.push(HwStep::Send(SpiPacket::with_data(SET_RAM_X_START_END, vec![0x00, (width / 8 - 1) as u8])));
        r.push(HwStep::Send(SpiPacket::with_data(SET_RAM_Y_START_END, vec![0x00, 0x00, h_lo, h_hi])));
        r.push(HwStep::Send(SpiPacket::with_data(SET_RAM_X_POINTER_START, vec![0x00])));
        r.push(HwStep::Send(SpiPacket::with_data(SET_RAM_Y_POINTER_START, vec![0x00, 0x00])));
        r.push(HwStep::Send(SpiPacket::with_data(SET_BW_BUFFER, buf)));
        r.push(HwStep::Send(SpiPacket::with_data(DISPLAY_UPDATE_SEQUENCE, vec![0xC7])));
        r.push(HwStep::Send(SpiPacket::no_data(TRIGGER_DISPLAY_UPDATE)));
        r.push(HwStep::SleepMs(50));
        r.push(HwStep::WaitBusy(Some(32000)));
        r.push(HwStep::Send(SpiPacket::with_data(ENTER_DEEP_SLEEP, vec![0x01])));
        proof {
            assert(steps_view(r@) =~~= what_update_plan(width, height, b));
        }
        r
    }

    fn wait_method(&self, busy_not_ready: bool, timeout_ms: Option<u64>) -> (r: WaitMethod) {
        WaitMethod::EdgeWait {
            rising: false,
            timeout_ms: Some(
                match timeout_ms {
                    Some(t) => t,
                    None => WHAT_DEFAULT_TIMEOUT_MS,
                },
            ),
        }
    }

    fn bus_policy(&self) -> (r: BusPolicy) {
        BusPolicy { uses_chip_select: false, setup_delay_ms: 0 }
    }
}

} // verus!
