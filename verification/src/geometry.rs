//! The sides of a node that an edge leaves from or arrives at.
use vstd::prelude::*;

verus! {

/// A side of a node's box.
#[derive(Clone, Copy, Debug, PartialEq, Eq, Structural)]
pub enum EdgeAnchorSide {
    Left,
    Right,
    Top,
    Bottom,
}

impl EdgeAnchorSide {
    /// Whether an edge leaves this side sideways (left or right).
    pub fn is_horizontal(self) -> (r: bool)
        ensures
            r == (self == EdgeAnchorSide::Left || self == EdgeAnchorSide::Right),
    {
        match self {
            EdgeAnchorSide::Left | EdgeAnchorSide::Right => true,
            _ => false,
        }
    }
}

} // verus!
