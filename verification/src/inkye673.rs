use vstd::prelude::*;

use crate::color::Color;
use crate::descriptor::{DisplayVariant, PanelDescriptor};
use crate::display::{
    grid_view, send_view, send_view_no_data, steps_view, BusPolicy, HwStep, InkyDisplay,
    SpiPacket, StepView, WaitMethod,
};
use crate::errors::InkyError;

verus! {

broadcast use crate::display::lemma_steps_view_push;

// Register opcodes of the six-color controller, from its datasheet.
pub const EL673_PSR: u8 = 0x00;

pub const EL673_PWR: u8 = 0x01;

pub const EL673_POF: u8 = 0x02;

pub const EL673_POFS: u8 = 0x03;

pub const EL673_PON: u8 = 0x04;

pub const EL673_BTST1: u8 = 0x05;

pub const EL673_BTST2: u8 = 0x06;

pub const EL673_BTST3: u8 = 0x08;

pub const EL673_DTM1: u8 = 0x10;

pub const EL673_DRF: u8 = 0x12;

pub const EL673_PLL: u8 = 0x30;

pub const EL673_CDI: u8 = 0x50;

pub const EL673_TCON: u8 = 0x60;

pub const EL673_TRES: u8 = 0x61;

pub const EL673_VDCS: u8 = 0x82;

pub const EL673_PWS: u8 = 0xE3;

/// The four-bit palette code this controller keeps for each color.
pub open spec fn e673_color_code(c: Color) -> u8 {
    match c {
        Color::Black => 0,
        Color::White => 1,
        Color::Yellow => 2,
        Color::Red => 3,
        Color::Blue => 5,
        Color::Green => 6,
    }
}

/// The palette code of a color on this panel.
pub fn as_u8(color: &Color) -> (r: u8)
    ensures
        r == e673_color_code(*color),
        r <= 6,
{
    match color {
        Color::Black => 0,
        Color::White => 1,
        Color::Yellow => 2,
        Color::Red => 3,
        Color::Blue => 5,
        Color::Green => 6,
    }
}

/// Two palette codes packed into one byte: the earlier pixel of the pair in
/// the high nibble, the later in the low nibble.
pub open spec fn packed_pair(a: Color, b: Color) -> u8 {
    (e673_color_code(a) * 16 + e673_color_code(b)) as u8
}

/// A row of even length packed pairwise, byte `k` holding the pixels at
/// `2k` and `2k + 1`.
pub open spec fn packed_row(row: Seq<Color>) -> Seq<u8> {
    Seq::new((row.len() / 2) as nat, |k: int| packed_pair(row[2 * k], row[2 * k + 1]))
}

/// Every row of the grid has even length.
pub open spec fn rows_even(grid: Seq<Seq<Color>>) -> bool {
    forall|i: int| 0 <= i < grid.len() ==> #[trigger] grid[i].len() % 2 == 0
}

/// The first `n` rows of the grid packed and concatenated in row order.
pub open spec fn packed_grid_prefix(grid: Seq<Seq<Color>>, n: int) -> Seq<u8>
    decreases n,
{
    if n <= 0 {
        Seq::empty()
    } else {
        packed_grid_prefix(grid, n - 1) + packed_row(grid[n - 1])
    }
}

/// The whole grid packed row by row.
pub open spec fn packed_grid(grid: Seq<Seq<Color>>) -> Seq<u8> {
    packed_grid_prefix(grid, grid.len() as int)
}

/// What this family's packer returns: the packed grid when every row has
/// even length, and a format error otherwise.
pub open spec fn e673_convert_spec(grid: Seq<Seq<Color>>) -> Result<Seq<u8>, InkyError> {
    if rows_even(grid) {
        Ok(packed_grid(grid))
    } else {
        Err(InkyError::OddRowLength)
    }
}

proof fn lemma_packed_prefix_len(grid: Seq<Seq<Color>>, width: int, n: int)
    requires
        forall|i: int| 0 <= i < grid.len() ==> #[trigger] grid[i].len() == width,
        width % 2 == 0,
        0 <= n <= grid.len(),
    ensures
        packed_grid_prefix(grid, n).len() == n * (width / 2),
    decreases n,
{
    if n > 0 {
        lemma_packed_prefix_len(grid, width, n - 1);
        assert(packed_grid_prefix(grid, n) == packed_grid_prefix(grid, n - 1) + packed_row(
            grid[n - 1],
        ));
        assert(grid[n - 1].len() == width);
        assert(packed_row(grid[n - 1]).len() == width / 2);
        assert(packed_grid_prefix(grid, n).len() == (n - 1) * (width / 2) + width / 2);
        assert((n - 1) * (width / 2) + width / 2 == n * (width / 2)) by (nonlinear_arith);
    } else {
        assert(packed_grid_prefix(grid, n).len() == 0);
        assert(n * (width / 2) == 0) by (nonlinear_arith)
            requires
                n == 0,
        ;
    }
}

proof fn lemma_packed_prefix_index(grid: Seq<Seq<Color>>, width: int, n: int, r: int, k: int)
    requires
        forall|i: int| 0 <= i < grid.len() ==> #[trigger] grid[i].len() == width,
        width % 2 == 0,
        0 <= r < n <= grid.len(),
        0 <= k < width / 2,
    ensures
        packed_grid_prefix(grid, n)[r * (width / 2) + k] == packed_pair(
            grid[r][2 * k],
            grid[r][2 * k + 1],
        ),
    decreases n,
{
    let half = width / 2;
    lemma_packed_prefix_len(grid, width, n - 1);
    if r == n - 1 {
        assert(r * half + k - (n - 1) * half == k);
        assert(packed_row(grid[r])[k] == packed_pair(grid[r][2 * k], grid[r][2 * k + 1]));
    } else {
        assert(r * half + k < (n - 1) * half) by (nonlinear_arith)
            requires
                0 <= k < half && 0 <= r < n - 1,
        ;
        lemma_packed_prefix_index(grid, width, n - 1, r, k);
    }
}

/// For a grid whose rows all share one even length, the paired-pixel packer
/// yields `(width / 2) * rows` bytes, and the high and low nibble of byte
/// `r * (width / 2) + k` are the palette codes of the two source pixels at
/// row `r`, positions `2k` and `2k + 1`.
pub proof fn lemma_paired_packing(grid: Seq<Seq<Color>>, width: int, r: int, k: int)
    requires
        forall|i: int| 0 <= i < grid.len() ==> #[trigger] grid[i].len() == width,
        width % 2 == 0,
        0 <= r < grid.len(),
        0 <= k < width / 2,
    ensures
        e673_convert_spec(grid) == Ok::<Seq<u8>, InkyError>(packed_grid(grid)),
        packed_grid(grid).len() == grid.len() * (width / 2),
        packed_grid(grid)[r * (width / 2) + k] / 16 == e673_color_code(grid[r][2 * k]),
        packed_grid(grid)[r * (width / 2) + k] % 16 == e673_color_code(grid[r][2 * k + 1]),
{
    assert(rows_even(grid));
    let n = grid.len() as int;
    lemma_packed_prefix_len(grid, width, n);
    lemma_packed_prefix_index(grid, width, n, r, k);
    let hi = e673_color_code(grid[r][2 * k]);
    let lo = e673_color_code(grid[r][2 * k + 1]);
    assert(hi <= 6 && lo <= 6);
    assert(packed_grid(grid)[r * (width / 2) + k] == (hi * 16 + lo) as u8);
    assert((hi * 16 + lo) / 16 == hi && (hi * 16 + lo) % 16 == lo) by (nonlinear_arith)
        requires
            hi <= 6 && lo <= 6,
    ;
}

/// The reset protocol of this controller: pulse the reset line, wait for
/// the panel, then issue the datasheet's configuration transactions.
pub open spec fn e673_reset_plan() -> Seq<StepView> {
    seq![
        StepView::ResetLow,
        StepView::SleepMs(30),
        StepView::ResetHigh,
        StepView::SleepMs(30),
        StepView::WaitBusy(Some(300)),
        send_view(0xAA, seq![0x49u8, 0x55, 0x20, 0x08, 0x09, 0x18]),
        send_view(EL673_PWR, seq![0x3Fu8]),
        send_view(EL673_PSR, seq![0x5Fu8, 0x69]),
        send_view(EL673_BTST1, seq![0x40u8, 0x1F, 0x1F, 0x2C]),
        send_view(EL673_BTST3, seq![0x6Fu8, 0x1F, 0x1F, 0x22]),
        send_view(EL673_BTST2, seq![0x6Fu8, 0x1F, 0x17, 0x17]),
        send_view(EL673_POFS, seq![0x00u8, 0x54, 0x00, 0x44]),
        send_view(EL673_TCON, seq![0x02u8, 0x00]),
        send_view(EL673_PLL, seq![0x08u8]),
        send_view(EL673_CDI, seq![0x3Fu8]),
        send_view(EL673_TRES, seq![0x03u8, 0x20, 0x01, 0xE0]),
        send_view(EL673_PWS, seq![0x2Fu8]),
        send_view(EL673_VDCS, seq![0x01u8]),
    ]
}

/// A full update: the reset protocol, then the packed buffer, power on,
/// a booster tweak, the refresh trigger with its long wait, and power off.
pub open spec fn e673_update_plan(buf: Seq<u8>) -> Seq<StepView> {
    e673_reset_plan() + seq![
        send_view(EL673_DTM1, buf),
        send_view_no_data(EL673_PON),
        StepView::WaitBusy(Some(300)),
        send_view(EL673_BTST2, seq![0x6Fu8, 0x1F, 0x17, 0x49]),
        send_view(EL673_DRF, seq![0x00u8]),
        StepView::WaitBusy(Some(32000)),
        send_view(EL673_POF, seq![0x00u8]),
        StepView::WaitBusy(Some(300)),
    ]
}

/// This family's busy-wait policy.  A busy line already at the not-ready
/// level when `wait` is entered means the host is not wired to receive a
/// real busy assertion: sleep out the timeout instead of arming a watch.
/// Otherwise watch for a rising edge.
pub open spec fn e673_wait_method(busy_not_ready: bool, timeout_ms: Option<u64>) -> WaitMethod {
    if busy_not_ready {
        WaitMethod::SleepFor(
            match timeout_ms {
                Some(t) => t,
                None => 100u64,
            },
        )
    } else {
        WaitMethod::EdgeWait { rising: true, timeout_ms }
    }
}

/// The level-sense fallback: a busy line already at the not-ready level
/// when `wait` is entered never arms an edge watch — the wait is a plain
/// sleep of the caller's timeout, or of the family default when none is
/// given — so no watch can be left armed by it.
pub proof fn lemma_level_sense_fallback(timeout_ms: Option<u64>)
    ensures
        e673_wait_method(true, timeout_ms) == WaitMethod::SleepFor(
            match timeout_ms {
                Some(t) => t,
                None => 100u64,
            },
        ),
{
}

/// Driver for the six-color family.
#[derive(Debug)]
pub struct InkyE673 {
    descriptor: PanelDescriptor,
}

impl InkyDisplay for InkyE673 {
    closed spec fn descriptor(&self) -> PanelDescriptor {
        self.descriptor
    }

    open spec fn wf(&self) -> bool {
        self.descriptor().wf()
    }

    open spec fn supported_variant(v: DisplayVariant) -> bool {
        v == DisplayVariant::E673
    }

    open spec fn spec_convert(&self, grid: Seq<Seq<Color>>) -> Result<Seq<u8>, InkyError> {
        e673_convert_spec(grid)
    }

    open spec fn spec_reset_plan(&self) -> Seq<StepView> {
        e673_reset_plan()
    }

    open spec fn spec_update_plan(&self, buf: Seq<u8>) -> Seq<StepView> {
        e673_update_plan(buf)
    }

    open spec fn spec_wait_method(&self, busy_not_ready: bool, timeout_ms: Option<u64>)
        -> WaitMethod {
        e673_wait_method(busy_not_ready, timeout_ms)
    }

    open spec fn spec_bus_policy(&self) -> BusPolicy {
        BusPolicy { uses_chip_select: true, setup_delay_ms: 300 }
    }

    fn new(descriptor: PanelDescriptor) -> (r: Result<Self, InkyError>) {
        if matches!(descriptor.variant, DisplayVariant::E673) {
            Ok(InkyE673 { descriptor })
        } else {
            Err(InkyError::UnsupportedVariant)
        }
    }

    fn convert(&self, buf: &Vec<Vec<Color>>) -> (r: Result<Vec<u8>, InkyError>) {
        let ghost grid = grid_view(buf@);
        let mut result: Vec<u8> = Vec::new();
        let mut i: usize = 0;
        while i < buf.len()
            invariant
                grid == grid_view(buf@),
                grid.len() == buf@.len(),
                i <= buf@.len(),
                forall|t: int| 0 <= t < i ==> #[trigger] grid[t].len() % 2 == 0,
                result@ == packed_grid_prefix(grid, i as int),
            decreases buf@.len() - i,
        {
            let row = &buf[i];
            proof {
                assert(row@ == grid[i as int]);
            }
            if row.len() % 2 != 0 {
                proof {
                    assert(!rows_even(grid));
                }
                return Err(InkyError::OddRowLength);
            }
            let mut j: usize = 0;
            while j < row.len()
                invariant
                    row@ == grid[i as int],
                    0 <= i < grid.len(),
                    j % 2 == 0,
                    j <= row@.len(),
                    row@.len() % 2 == 0,
                    result@ == packed_grid_prefix(grid, i as int) + packed_row(grid[i as int])
                        .take((j / 2) as int),
                decreases row@.len() - j,
            {
                let p1 = as_u8(&row[j]);
                let p2 = as_u8(&row[j + 1]);
                let byte = ((p1 << 4u8) & 0xF0u8) | (p2 & 0x0Fu8);
                proof {
                    assert(((p1 << 4u8) & 0xF0u8) | (p2 & 0x0Fu8) == p1 * 16 + p2)
                        by (bit_vector)
                        requires
                            p1 <= 6 && p2 <= 6,
                    ;
                    let k = (j / 2) as int;
                    assert(2 * k == j);
                    assert(packed_row(grid[i as int])[k] == packed_pair(
                        grid[i as int][2 * k],
                        grid[i as int][2 * k + 1],
                    ));
                    assert(packed_row(grid[i as int]).take(k + 1) =~= packed_row(
                        grid[i as int],
                    ).take(k).push(packed_pair(grid[i as int][2 * k], grid[i as int][2 * k + 1])));
                }
                result.push(byte);
                j += 2;
            }
            proof {
                assert(packed_row(grid[i as int]).take((j / 2) as int) =~= packed_row(
                    grid[i as int],
                ));
                assert(result@ == packed_grid_prefix(grid, i as int + 1));
            }
            i += 1;
        }
        proof {
            assert(rows_even(grid));
        }
        Ok(result)
    }

    fn reset_steps(&self) -> (r: Vec<HwStep>) {
        let mut r: Vec<HwStep> = Vec::new();
        r.push(HwStep::ResetLow);
        r.push(HwStep::SleepMs(30));
        r.push(HwStep::ResetHigh);
        r.push(HwStep::SleepMs(30));
        r.push(HwStep::WaitBusy(Some(300)));
        r.push(HwStep::Send(SpiPacket::with_data(0xAA, vec![0x49, 0x55, 0x20, 0x08, 0x09, 0x18])));
        r.push(HwStep::Send(SpiPacket::with_data(EL673_PWR, vec![0x3F])));
        r.push(HwStep::Send(SpiPacket::with_data(EL673_PSR, vec![0x5F, 0x69])));
        r.push(HwStep::Send(SpiPacket::with_data(EL673_BTST1, vec![0x40, 0x1F, 0x1F, 0x2C])));
        r.push(HwStep::Send(SpiPacket::with_data(EL673_BTST3, vec![0x6F, 0x1F, 0x1F, 0x22])));
        r.push(HwStep::Send(SpiPacket::with_data(EL673_BTST2, vec![0x6F, 0x1F, 0x17, 0x17])));
        r.push(HwStep::Send(SpiPacket::with_data(EL673_POFS, vec![0x00, 0x54, 0x00, 0x44])));
        r.push(HwStep::Send(SpiPacket::with_data(EL673_TCON, vec![0x02, 0x00])));
        r.push(HwStep::Send(SpiPacket::with_data(EL673_PLL, vec![0x08])));
        r.push(HwStep::Send(SpiPacket::with_data(EL673_CDI, vec![0x3F])));
        r.push(HwStep::Send(SpiPacket::with_data(EL673_TRES, vec![0x03, 0x20, 0x01, 0xE0])));
        r.push(HwStep::Send(SpiPacket::with_data(EL673_PWS, vec![0x2F])));
        r.push(HwStep::Send(SpiPacket::with_data(EL673_VDCS, vec![0x01])));
        proof {
            assert(steps_view(r@) =~~= e673_reset_plan());
        }
        r
    }

    fn update_steps(&self, buf: Vec<u8>) -> (r: Vec<HwStep>) {
        let ghost b = buf@;
        let mut r = self.reset_steps();
        proof {
            assert(steps_view(r@).len() == r@.len());
            assert(r@.len() == 18);
        }
        r.push(HwStep::Send(SpiPacket::with_data(EL673_DTM1, buf)));
        r.push(HwStep::Send(SpiPacket::no_data(EL673_PON)));
        r.push(HwStep::WaitBusy(Some(300)));
        r.push(HwStep::Send(SpiPacket::with_data(EL673_BTST2, vec![0x6F, 0x1F, 0x17, 0x49])));
        r.push(HwStep::Send(SpiPacket::with_data(EL673_DRF, vec![0x00])));
        r.push(HwStep::WaitBusy(Some(32000)));
        r.push(HwStep::Send(SpiPacket::with_data(EL673_POF, vec![0x00])));
        r.push(HwStep::WaitBusy(Some(300)));
        proof {
            assert(steps_view(r@) =~~= e673_update_plan(b));
        }
        r
    }

    fn wait_method(&self, busy_not_ready: bool, timeout_ms: Option<u64>) -> (r: WaitMethod) {
        if busy_not_ready {
            WaitMethod::SleepFor(
                match timeout_ms {
                    Some(t) => t,
                    None => 100,
                },
            )
        } else {
            WaitMethod::EdgeWait { rising: true, timeout_ms }
        }
    }

    fn bus_policy(&self) -> (r: BusPolicy) {
        BusPolicy { uses_chip_select: true, setup_delay_ms: 300 }
    }
}

} // verus!
