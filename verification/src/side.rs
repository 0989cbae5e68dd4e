//! The four sides on which a letterbox bar can lie.

use vstd::prelude::*;

verus! {

/// One of the four bars that cover the surface outside the content.
#[derive(Clone, Copy, Debug, PartialEq, Eq, Structural)]
pub enum AspectRatioMaskSide {
    Left,
    Right,
    Top,
    Bottom,
}

impl AspectRatioMaskSide {
    /// The side that takes this side's place when width and height trade
    /// places.
    pub open spec fn transposed(self) -> AspectRatioMaskSide {
        match self {
            AspectRatioMaskSide::Left => AspectRatioMaskSide::Top,
            AspectRatioMaskSide::Right => AspectRatioMaskSide::Bottom,
            AspectRatioMaskSide::Top => AspectRatioMaskSide::Left,
            AspectRatioMaskSide::Bottom => AspectRatioMaskSide::Right,
        }
    }

    /// Position of the side in the fixed order left, right, top, bottom.
    pub open spec fn index(self) -> int {
        match self {
            AspectRatioMaskSide::Left => 0,
            AspectRatioMaskSide::Right => 1,
            AspectRatioMaskSide::Top => 2,
            AspectRatioMaskSide::Bottom => 3,
        }
    }

    /// Position of the side in the fixed order left, right, top, bottom.
    pub fn position(self) -> (i: usize)
        ensures
            i == self.index(),
    {
        match self {
            AspectRatioMaskSide::Left => 0,
            AspectRatioMaskSide::Right => 1,
            AspectRatioMaskSide::Top => 2,
            AspectRatioMaskSide::Bottom => 3,
        }
    }
}

} // verus!
