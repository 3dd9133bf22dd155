use vstd::prelude::*;

use crate::canvas::Canvas;
use crate::color::Color;
use crate::descriptor::{DisplayVariant, PanelDescriptor};
use crate::display::{steps_view, BusPolicy, HwStep, InkyDisplay, StepView, WaitMethod};
use crate::errors::InkyError;
use crate::inkye673::InkyE673;
use crate::inkywhat::InkyWhat;

verus! {

/// The closed set of controller drivers, one per supported family, chosen
/// once from the panel descriptor and never reconsidered.
#[derive(Debug)]
pub enum Driver {
    E673(InkyE673),
    What(InkyWhat),
}

impl Driver {
    pub open spec fn wf(&self) -> bool {
        match self {
            Driver::E673(d) => d.wf(),
            Driver::What(d) => d.wf(),
        }
    }

    pub open spec fn spec_descriptor(&self) -> PanelDescriptor {
        match self {
            Driver::E673(d) => d.descriptor(),
            Driver::What(d) => d.descriptor(),
        }
    }

    pub open spec fn spec_convert(&self, grid: Seq<Seq<Color>>) -> Result<Seq<u8>, InkyError> {
        match self {
            Driver::E673(d) => d.spec_convert(grid),
            Driver::What(d) => d.spec_convert(grid),
        }
    }

    pub open spec fn spec_update_plan(&self, buf: Seq<u8>) -> Seq<StepView> {
        match self {
            Driver::E673(d) => d.spec_update_plan(buf),
            Driver::What(d) => d.spec_update_plan(buf),
        }
    }

    pub open spec fn spec_wait_method(&self, busy_not_ready: bool, timeout_ms: Option<u64>)
        -> WaitMethod {
        match self {
            Driver::E673(d) => d.spec_wait_method(busy_not_ready, timeout_ms),
            Driver::What(d) => d.spec_wait_method(busy_not_ready, timeout_ms),
        }
    }

    pub open spec fn spec_bus_policy(&self) -> BusPolicy {
        match self {
            Driver::E673(d) => d.spec_bus_policy(),
            Driver::What(d) => d.spec_bus_policy(),
        }
    }
}

/// The driver facade: owns the canvas and the active family driver, and
/// turns the current canvas into the full hardware update plan.
#[derive(Debug)]
pub struct Inky {
    display: Driver,
    canvas: Canvas,
}

impl Inky {
    pub closed spec fn spec_display(&self) -> Driver {
        self.display
    }

    pub closed spec fn spec_canvas(&self) -> Canvas {
        self.canvas
    }

    pub open spec fn wf(&self) -> bool {
        &&& self.spec_display().wf()
        &&& self.spec_canvas().wf()
    }

    /// What `update` produces for the current canvas: the family's packed
    /// buffer wrapped in its update plan, or the packer's format error.
    pub open spec fn spec_update(&self) -> Result<Seq<StepView>, InkyError> {
        match self.spec_display().spec_convert(self.spec_canvas().grid()) {
            Ok(buf) => Ok(self.spec_display().spec_update_plan(buf)),
            Err(e) => Err(e),
        }
    }

    /// Construct the facade for the attached panel: dispatch on the
    /// descriptor's family, and build a blank canvas of the panel's size.
    /// Fails with an unsupported-variant error for families without a
    /// driver.
    pub fn from_descriptor(descriptor: PanelDescriptor) -> (r: Result<Inky, InkyError>)
        requires
            descriptor.wf(),
        ensures
            (r is Ok) <==> (descriptor.variant == DisplayVariant::E673 || descriptor.variant
                == DisplayVariant::What),
            r matches Ok(inky) ==> {
                &&& inky.wf()
                &&& inky.spec_display().spec_descriptor() == descriptor
                &&& (inky.spec_display() is E673 <==> descriptor.variant == DisplayVariant::E673)
                &&& inky.spec_canvas().spec_width() == descriptor.width
                &&& inky.spec_canvas().spec_height() == descriptor.height
                &&& forall|i: int, j: int|
                    0 <= i < descriptor.height && 0 <= j < descriptor.width
                        ==> #[trigger] inky.spec_canvas().grid()[i][j] == Color::White
            },
            r matches Err(e) ==> e == InkyError::UnsupportedVariant,
    {
        let canvas = Canvas::new(descriptor.width as usize, descriptor.height as usize);
        match descriptor.variant {
            DisplayVariant::E673 => {
                match InkyE673::new(descriptor) {
                    Ok(d) => Ok(Inky { display: Driver::E673(d), canvas }),
                    Err(e) => Err(e),
                }
            },
            DisplayVariant::What => {
                match InkyWhat::new(descriptor) {
                    Ok(d) => Ok(Inky { display: Driver::What(d), canvas }),
                    Err(e) => Err(e),
                }
            },
            _ => Err(InkyError::UnsupportedVariant),
        }
    }

    /// The canvas, for reading.
    pub fn canvas(&self) -> (r: &Canvas)
        ensures
            *r == self.spec_canvas(),
    {
        &self.canvas
    }

    /// The canvas, for drawing.
    pub fn canvas_mut(&mut self) -> (r: &mut Canvas)
        ensures
            *r == old(self).spec_canvas(),
            final(self).spec_canvas() == *final(r),
            final(self).spec_display() == old(self).spec_display(),
    {
        &mut self.canvas
    }

    /// Render the canvas: convert it to the family's packed buffer, then
    /// wrap the buffer in the family's full update plan.  A format failure
    /// from the conversion is returned unchanged and nothing is produced.
    pub fn update(&self) -> (r: Result<Vec<HwStep>, InkyError>)
        requires
            self.wf(),
        ensures
            (match r {
                Ok(steps) => self.spec_update() == Ok::<Seq<StepView>, InkyError>(
                    steps_view(steps@),
                ),
                Err(e) => self.spec_update() == Err::<Seq<StepView>, InkyError>(e),
            }),
    {
        match &self.display {
            Driver::E673(d) => {
                match d.convert(self.canvas.pixels()) {
                    Ok(buf) => Ok(d.update_steps(buf)),
                    Err(e) => Err(e),
                }
            },
            Driver::What(d) => {
                match d.convert(self.canvas.pixels()) {
                    Ok(buf) => Ok(d.update_steps(buf)),
                    Err(e) => Err(e),
                }
            },
        }
    }

    /// How a busy-wait of the active family is to be carried out, given the
    /// busy line's level at entry and the caller's timeout.
    pub fn wait_method(&self, busy_not_ready: bool, timeout_ms: Option<u64>) -> (r: WaitMethod)
        ensures
            r == self.spec_display().spec_wait_method(busy_not_ready, timeout_ms),
    {
        match &self.display {
            Driver::E673(d) => d.wait_method(busy_not_ready, timeout_ms),
            Driver::What(d) => d.wait_method(busy_not_ready, timeout_ms),
        }
    }

    /// How the active family frames bus transactions.
    pub fn bus_policy(&self) -> (r: BusPolicy)
        ensures
            r == self.spec_display().spec_bus_policy(),
    {
        match &self.display {
            Driver::E673(d) => d.bus_policy(),
            Driver::What(d) => d.bus_policy(),
        }
    }
}


/// When rendering is owed success: on a well-formed facade the canvas rows
/// all have the panel's width, so the two-color packer always succeeds, and
/// the paired-pixel packer succeeds whenever that width is even.  `update`'s
/// only failure is the format error on an odd width under the paired-pixel
/// family.
pub proof fn lemma_update_succeeds(inky: Inky)
    requires
        inky.wf(),
        inky.spec_display() is What || inky.spec_canvas().spec_width() % 2 == 0,
    ensures
        inky.spec_update() is Ok,
{
    let grid = inky.spec_canvas().grid();
    match inky.spec_display() {
        Driver::E673(_) => {
            assert forall|i: int| 0 <= i < grid.len() implies #[trigger] grid[i].len() % 2
                == 0 by {
                assert(grid[i].len() == inky.spec_canvas().spec_width());
            }
            assert(crate::inkye673::rows_even(grid));
        },
        Driver::What(_) => {},
    }
}

} // verus!
