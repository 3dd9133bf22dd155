use vstd::prelude::*;

use crate::color::Color;
use crate::descriptor::{DisplayVariant, PanelDescriptor};
use crate::errors::InkyError;

verus! {

/// One logical bus transaction: an opcode byte followed by an optional
/// payload, exactly as a panel controller expects it.
#[derive(PartialEq, Eq, Debug)]
pub struct SpiPacket {
    pub command: u8,
    pub data: Option<Vec<u8>>,
}

/// The mathematical image of a packet: the opcode and the payload bytes.
#[verifier::ext_equal]
pub struct PacketView {
    pub command: u8,
    pub data: Option<Seq<u8>>,
}

impl View for SpiPacket {
    type V = PacketView;

    open spec fn view(&self) -> PacketView {
        PacketView {
            command: self.command,
            data: match self.data {
                Some(d) => Some(d@),
                None => None,
            },
        }
    }
}

impl SpiPacket {
    pub fn with_data(command: u8, data: Vec<u8>) -> (r: Self)
        ensures
            r@ == (PacketView { command, data: Some(data@) }),
    {
        Self { command, data: Some(data) }
    }

    pub fn no_data(command: u8) -> (r: Self)
        ensures
            r@ == (PacketView { command, data: None::<Seq<u8>> }),
    {
        Self { command, data: None }
    }
}

/// One step of a hardware update plan.  The unverified shell executes the
/// steps of a plan strictly in order; the verified drivers promise the order
/// reproduces each controller's datasheet sequence.
#[derive(PartialEq, Eq, Debug)]
pub enum HwStep {
    /// Drive the reset line low.
    ResetLow,
    /// Drive the reset line high.
    ResetHigh,
    /// Pause for the given number of milliseconds.
    SleepMs(u64),
    /// Perform one bus transaction (see [`bus_transaction_steps`]).
    Send(SpiPacket),
    /// Synchronize with the busy line, with an optional timeout in
    /// milliseconds (see [`InkyDisplay::wait_method`]).
    WaitBusy(Option<u64>),
}

/// The mathematical image of a plan step.
#[verifier::ext_equal]
pub enum StepView {
    ResetLow,
    ResetHigh,
    SleepMs(u64),
    Send(PacketView),
    WaitBusy(Option<u64>),
}

impl View for HwStep {
    type V = StepView;

    open spec fn view(&self) -> StepView {
        match self {
            HwStep::ResetLow => StepView::ResetLow,
            HwStep::ResetHigh => StepView::ResetHigh,
            HwStep::SleepMs(ms) => StepView::SleepMs(*ms),
            HwStep::Send(p) => StepView::Send(p@),
            HwStep::WaitBusy(t) => StepView::WaitBusy(*t),
        }
    }
}

pub open spec fn steps_view(s: Seq<HwStep>) -> Seq<StepView> {
    s.map_values(|x: HwStep| x@)
}

/// How a family frames a transaction on the wire.
#[derive(Clone, Copy, PartialEq, Eq, Debug)]
pub struct BusPolicy {
    /// Whether the plan itself asserts and releases the chip-select line
    /// around the transaction.  A family that leaves this off delegates
    /// select framing to the bus transport, which drives its own select
    /// line around every transfer.
    pub uses_chip_select: bool,
    /// Milliseconds to pause after asserting select and command mode,
    /// before the opcode is written; zero means no pause.
    pub setup_delay_ms: u64,
}

/// One line-level operation of a bus transaction.
#[derive(PartialEq, Eq, Debug)]
pub enum BusStep {
    /// Assert the chip-select line (active low on the wire).
    SelectActive,
    /// Release the chip-select line.
    SelectIdle,
    /// Put the data/command line into command mode.
    CommandMode,
    /// Put the data/command line into data mode.
    DataMode,
    /// Pause for the given number of milliseconds.
    PauseMs(u64),
    /// Write the bytes to the bus as one transfer.
    Write(Vec<u8>),
}

/// The mathematical image of a line-level operation.
#[verifier::ext_equal]
pub enum BusStepView {
    SelectActive,
    SelectIdle,
    CommandMode,
    DataMode,
    PauseMs(u64),
    Write(Seq<u8>),
}

impl View for BusStep {
    type V = BusStepView;

    open spec fn view(&self) -> BusStepView {
        match self {
            BusStep::SelectActive => BusStepView::SelectActive,
            BusStep::SelectIdle => BusStepView::SelectIdle,
            BusStep::CommandMode => BusStepView::CommandMode,
            BusStep::DataMode => BusStepView::DataMode,
            BusStep::PauseMs(ms) => BusStepView::PauseMs(*ms),
            BusStep::Write(bytes) => BusStepView::Write(bytes@),
        }
    }
}

pub open spec fn bus_steps_view(s: Seq<BusStep>) -> Seq<BusStepView> {
    s.map_values(|x: BusStep| x@)
}

/// The bus transport accepts at most this many bytes per transfer; longer
/// payloads are split into consecutive transfers.
pub const SPI_CHUNK_BYTES: usize = 4096;

/// How many transfers a payload of `len` bytes needs.
pub open spec fn spi_chunk_count(len: nat) -> nat {
    ((len + 4095) / 4096) as nat
}

/// The payload cut into transfer-sized pieces, in order.  Every piece is
/// full except possibly the last; their concatenation is the payload.
pub open spec fn spi_chunks(data: Seq<u8>) -> Seq<Seq<u8>> {
    Seq::new(
        spi_chunk_count(data.len()),
        |k: int|
            data.subrange(
                4096 * k,
                if 4096 * k + 4096 <= data.len() {
                    4096 * k + 4096
                } else {
                    data.len() as int
                },
            ),
    )
}

/// Chunk boundaries carry no meaning: concatenating the transfer-sized
/// pieces recovers the payload exactly.
pub proof fn lemma_chunks_flatten(data: Seq<u8>)
    ensures
        spi_chunks(data).flatten() == data,
    decreases data.len(),
{
    if data.len() == 0 {
        assert(spi_chunks(data).flatten() =~= data);
    } else if data.len() <= 4096 {
        assert(spi_chunks(data).len() == 1);
        assert(spi_chunks(data)[0] =~= data);
        assert(spi_chunks(data).drop_first().flatten() =~= Seq::<u8>::empty());
        assert(spi_chunks(data).flatten() =~= data);
    } else {
        let rest = data.skip(4096);
        lemma_chunks_flatten(rest);
        assert(spi_chunks(data).len() == spi_chunks(rest).len() + 1);
        assert forall|k: int| 0 <= k < spi_chunks(rest).len() implies spi_chunks(data)[k + 1]
            == spi_chunks(rest)[k] by {
            assert(spi_chunks(data)[k + 1] =~= spi_chunks(rest)[k]);
        }
        assert(spi_chunks(data).drop_first() =~= spi_chunks(rest));
        assert(spi_chunks(data).first() =~= data.take(4096));
        assert(spi_chunks(data).flatten() =~= data.take(4096) + rest);
        assert(data.take(4096) + rest =~= data);
    }
}

/// The write operations of a payload's transfer-sized pieces, in order.
pub open spec fn write_steps(chunks: Seq<Seq<u8>>) -> Seq<BusStepView> {
    chunks.map_values(|c: Seq<u8>| BusStepView::Write(c))
}

/// The exact line-level sequence of one transaction under a policy:
/// optionally assert select, enter command mode, optionally pause, write the
/// opcode, then — if there is a payload — enter data mode and write it in
/// transfer-sized pieces; finally, every transaction releases select (a
/// family whose policy does not drive the select line leaves its framing to
/// the bus transport, which asserts it around each transfer on its own) and
/// returns the data/command line to its command-mode default.
pub open spec fn transaction_plan(p: PacketView, policy: BusPolicy) -> Seq<BusStepView> {
    let select = if policy.uses_chip_select {
        seq![BusStepView::SelectActive]
    } else {
        Seq::<BusStepView>::empty()
    };
    let pause = if policy.setup_delay_ms > 0 {
        seq![BusStepView::PauseMs(policy.setup_delay_ms)]
    } else {
        Seq::<BusStepView>::empty()
    };
    let payload = match p.data {
        Some(d) => seq![BusStepView::DataMode] + write_steps(spi_chunks(d)),
        None => Seq::<BusStepView>::empty(),
    };
    let tail = if policy.uses_chip_select {
        seq![BusStepView::SelectIdle, BusStepView::CommandMode]
    } else {
        seq![BusStepView::CommandMode]
    };
    select + seq![BusStepView::CommandMode] + pause
        + seq![BusStepView::Write(seq![p.command])] + payload + tail
}

/// Push distributes over the view of a plan-step sequence.
pub broadcast proof fn lemma_steps_view_push(s: Seq<HwStep>, x: HwStep)
    ensures
        #[trigger] steps_view(s.push(x)) =~= steps_view(s).push(x@),
{
}

/// The step that sends an opcode with a payload.
pub open spec fn send_view(command: u8, data: Seq<u8>) -> StepView {
    StepView::Send(PacketView { command, data: Some(data) })
}

/// The step that sends a bare opcode.
pub open spec fn send_view_no_data(command: u8) -> StepView {
    StepView::Send(PacketView { command, data: None::<Seq<u8>> })
}

proof fn lemma_bus_view_push(s: Seq<BusStep>, x: BusStep)
    ensures
        bus_steps_view(s.push(x)) =~= bus_steps_view(s).push(x@),
{
}

/// Lay out the line-level operations of one transaction.  Chunk boundaries
/// carry no meaning: the concatenation of the written pieces is exactly the
/// opcode followed by the payload.
pub fn bus_transaction_steps(packet: &SpiPacket, policy: BusPolicy) -> (r: Vec<BusStep>)
    ensures
        bus_steps_view(r@) == transaction_plan(packet@, policy),
{
    let mut r: Vec<BusStep> = Vec::new();
    if policy.uses_chip_select {
        proof {
            lemma_bus_view_push(r@, BusStep::SelectActive);
        }
        r.push(BusStep::SelectActive);
    }
    proof {
        lemma_bus_view_push(r@, BusStep::CommandMode);
    }
    r.push(BusStep::CommandMode);
    if policy.setup_delay_ms > 0 {
        proof {
            lemma_bus_view_push(r@, BusStep::PauseMs(policy.setup_delay_ms));
        }
        r.push(BusStep::PauseMs(policy.setup_delay_ms));
    }
    let mut opcode: Vec<u8> = Vec::new();
    opcode.push(packet.command);
    proof {
        assert(opcode@ =~= seq![packet.command]);
        lemma_bus_view_push(r@, BusStep::Write(opcode));
    }
    r.push(BusStep::Write(opcode));
    let ghost header = bus_steps_view(r@);
    proof {
        let p = packet@;
        let select = if policy.uses_chip_select {
            seq![BusStepView::SelectActive]
        } else {
            Seq::<BusStepView>::empty()
        };
        let pause = if policy.setup_delay_ms > 0 {
            seq![BusStepView::PauseMs(policy.setup_delay_ms)]
        } else {
            Seq::<BusStepView>::empty()
        };
        assert(header =~= select + seq![BusStepView::CommandMode] + pause
            + seq![BusStepView::Write(seq![p.command])]);
    }
    match &packet.data {
        Some(data) => {
            proof {
                lemma_bus_view_push(r@, BusStep::DataMode);
            }
            r.push(BusStep::DataMode);
            let n = data.len();
            let mut i: usize = 0;
            while i < n
                invariant
                    n == data@.len(),
                    i <= n,
                    i == n || i % 4096 == 0,
                    bus_steps_view(r@) =~= header + seq![BusStepView::DataMode]
                        + write_steps(spi_chunks(data@)).take(((i + 4095) / 4096) as int),
                decreases n - i,
            {
                let ghost k = (i / 4096) as int;
                proof {
                    assert(i == 4096 * k);
                }
                let end = if n - i <= SPI_CHUNK_BYTES {
                    n
                } else {
                    i + SPI_CHUNK_BYTES
                };
                let mut chunk: Vec<u8> = Vec::new();
                let mut j = i;
                while j < end
                    invariant
                        i <= j <= end <= n,
                        n == data@.len(),
                        chunk@ =~= data@.subrange(i as int, j as int),
                    decreases end - j,
                {
                    chunk.push(data[j]);
                    j += 1;
                }
                proof {
                    assert(0 <= k < spi_chunks(data@).len());
                    assert(chunk@ =~= spi_chunks(data@)[k]);
                    assert(write_steps(spi_chunks(data@))[k] == BusStepView::Write(
                        spi_chunks(data@)[k],
                    ));
                    assert(write_steps(spi_chunks(data@)).take(k + 1) =~= write_steps(
                        spi_chunks(data@),
                    ).take(k).push(BusStepView::Write(spi_chunks(data@)[k])));
                    lemma_bus_view_push(r@, BusStep::Write(chunk));
                }
                r.push(BusStep::Write(chunk));
                i = end;
                proof {
                    assert(((i + 4095) / 4096) as int == k + 1);
                }
            }
            proof {
                assert(write_steps(spi_chunks(data@)).take(((n + 4095) / 4096) as int)
                    =~= write_steps(spi_chunks(data@)));
            }
        },
        None => {},
    }
    if policy.uses_chip_select {
        proof {
            lemma_bus_view_push(r@, BusStep::SelectIdle);
        }
        r.push(BusStep::SelectIdle);
    }
    proof {
        lemma_bus_view_push(r@, BusStep::CommandMode);
    }
    r.push(BusStep::CommandMode);
    proof {
        assert(bus_steps_view(r@) =~= transaction_plan(packet@, policy));
    }
    r
}

/// How a `wait` synchronization point is to be carried out.
#[derive(Clone, Copy, PartialEq, Eq, Debug)]
pub enum WaitMethod {
    /// The busy signal cannot be trusted: sleep for the given number of
    /// milliseconds and then proceed.  Never arms a watch, so none can leak.
    SleepFor(u64),
    /// Arm an edge watch on the busy line (rising edge if `rising`, falling
    /// otherwise), block until it fires or the timeout elapses, and disarm
    /// the watch before returning.
    EdgeWait { rising: bool, timeout_ms: Option<u64> },
}

/// A pixel grid as a mathematical value.
pub open spec fn grid_view(g: Seq<Vec<Color>>) -> Seq<Seq<Color>> {
    g.map_values(|row: Vec<Color>| row@)
}

/// The common operation set of a controller driver.  Each family states its
/// packing format and its exact datasheet sequences through the spec
/// functions, and the executable methods are proved to reproduce them.
pub trait InkyDisplay: Sized {
    /// The descriptor the driver was built from.
    spec fn descriptor(&self) -> PanelDescriptor;

    /// A driver is well formed when its descriptor is.
    spec fn wf(&self) -> bool;

    /// Which families this driver accepts at construction.
    spec fn supported_variant(v: DisplayVariant) -> bool;

    /// The packed buffer this family's controller expects for a grid, or
    /// the format error the grid provokes.
    spec fn spec_convert(&self, grid: Seq<Seq<Color>>) -> Result<Seq<u8>, InkyError>;

    /// The exact step sequence of this family's reset protocol.
    spec fn spec_reset_plan(&self) -> Seq<StepView>;

    /// The exact step sequence of a full update with the given packed
    /// buffer, ending in deep sleep.
    spec fn spec_update_plan(&self, buf: Seq<u8>) -> Seq<StepView>;

    /// This family's busy-wait policy, given the level of the busy line at
    /// entry and the caller's timeout.
    spec fn spec_wait_method(&self, busy_not_ready: bool, timeout_ms: Option<u64>) -> WaitMethod;

    /// How this family frames bus transactions.
    spec fn spec_bus_policy(&self) -> BusPolicy;

    /// Construct the driver, failing fast on a descriptor of another family.
    fn new(descriptor: PanelDescriptor) -> (r: Result<Self, InkyError>)
        requires
            descriptor.wf(),
        ensures
            (r is Ok) <==> Self::supported_variant(descriptor.variant),
            r matches Ok(d) ==> d.wf() && d.descriptor() == descriptor,
            r matches Err(e) ==> e == InkyError::UnsupportedVariant,
    ;

    /// Pure, side-effect-free conversion of a grid to this family's packed
    /// buffer format.
    fn convert(&self, buf: &Vec<Vec<Color>>) -> (r: Result<Vec<u8>, InkyError>)
        requires
            self.wf(),
        ensures
            (match r {
                Ok(v) => self.spec_convert(grid_view(buf@)) == Ok::<Seq<u8>, InkyError>(v@),
                Err(e) => self.spec_convert(grid_view(buf@)) == Err::<Seq<u8>, InkyError>(e),
            }),
    ;

    /// The reset protocol as an executable plan.
    fn reset_steps(&self) -> (r: Vec<HwStep>)
        requires
            self.wf(),
        ensures
            steps_view(r@) == self.spec_reset_plan(),
    ;

    /// The full update protocol for a packed buffer as an executable plan.
    fn update_steps(&self, buf: Vec<u8>) -> (r: Vec<HwStep>)
        requires
            self.wf(),
        ensures
            steps_view(r@) == self.spec_update_plan(buf@),
    ;

    /// Decide how a synchronization point is carried out.
    fn wait_method(&self, busy_not_ready: bool, timeout_ms: Option<u64>) -> (r: WaitMethod)
        ensures
            r == self.spec_wait_method(busy_not_ready, timeout_ms),
    ;

    /// The transaction framing the shell must use for this family.
    fn bus_policy(&self) -> (r: BusPolicy)
        ensures
            r == self.spec_bus_policy(),
    ;
}

} // verus!

