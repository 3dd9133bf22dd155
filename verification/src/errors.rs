use vstd::prelude::*;

verus! {

/// Everything that can go wrong inside the driver core itself.  Failures of
/// the underlying bus or GPIO facility never reach this crate: the unverified
/// shell that executes a plan reports those on its own.
#[derive(Clone, Copy, PartialEq, Eq, Debug)]
pub enum InkyError {
    /// The panel descriptor names a family this crate has no driver for.
    UnsupportedVariant,
    /// A row of the pixel grid has odd length, which the paired-pixel
    /// packer cannot represent.
    OddRowLength,
}

impl InkyError {
    /// The wording of each failure, as shown to a caller.
    pub open spec fn spec_message(&self) -> Seq<char> {
        match self {
            InkyError::UnsupportedVariant => "Unsupported display variant"@,
            InkyError::OddRowLength => "Row length must be even!"@,
        }
    }

    /// A human-readable description of the failure.
    pub fn message(&self) -> (r: &'static str)
        ensures
            r@ == self.spec_message(),
    {
        match self {
            InkyError::UnsupportedVariant => "Unsupported display variant",
            InkyError::OddRowLength => "Row length must be even!",
        }
    }
}

} // verus!
