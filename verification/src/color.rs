use vstd::prelude::*;

verus! {

/// The colors a panel can be asked to show.  Families that support fewer
/// colors map the rest onto their own palette when packing.
#[derive(Clone, Copy, PartialEq, Eq, Structural, Debug)]
pub enum Color {
    Black,
    White,
    Yellow,
    Red,
    Blue,
    Green,
}

} // verus!
