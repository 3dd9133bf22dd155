use vstd::prelude::*;

verus! {

/// The panel families an attached display can declare.  Only some of them
/// have a driver in this crate; constructing a driver for the others fails
/// with [`crate::errors::InkyError::UnsupportedVariant`].
#[derive(Clone, Copy, PartialEq, Eq, Debug)]
pub enum DisplayVariant {
    /// The six-color family.
    E673,
    /// The two-color / grayscale family.
    What,
    /// A smaller two-color family; recognized but not driven.
    Phat,
    /// The seven-color family; recognized but not driven.
    Impression,
}

/// What the external panel-descriptor provider reports about the attached
/// display: its family and its dimensions in pixels.  Immutable once read.
#[derive(Clone, Copy, PartialEq, Eq, Debug)]
pub struct PanelDescriptor {
    pub variant: DisplayVariant,
    pub width: u16,
    pub height: u16,
}

impl PanelDescriptor {
    /// Dimensions every real panel satisfies.  The upper bound on the width
    /// comes from the controller, which stores `width / 8 - 1` in a single
    /// register byte.
    pub open spec fn wf(&self) -> bool {
        &&& 8 <= self.width <= 2048
        &&& 1 <= self.height
    }

    /// Build a descriptor from untrusted dimensions, checking them at run
    /// time: `Some` exactly when a panel of this size can exist.  The shell
    /// around this crate goes through here, so no facade is ever built on
    /// dimensions that break the drivers' preconditions.
    pub fn try_new(variant: DisplayVariant, width: u16, height: u16) -> (r: Option<Self>)
        ensures
            (r is Some) <==> (8 <= width <= 2048 && 1 <= height),
            r matches Some(d) ==> d == (PanelDescriptor { variant, width, height }) && d.wf(),
    {
        if 8 <= width && width <= 2048 && 1 <= height {
            Some(PanelDescriptor { variant, width, height })
        } else {
            None
        }
    }

    pub fn new(variant: DisplayVariant, width: u16, height: u16) -> (r: Self)
        requires
            8 <= width <= 2048,
            1 <= height,
        ensures
            r == (PanelDescriptor { variant, width, height }),
            r.wf(),
    {
        PanelDescriptor { variant, width, height }
    }
}

} // verus!
