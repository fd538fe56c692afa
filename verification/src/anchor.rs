//! Anchors: the nine points of a rectangle that things are aligned to.

use vstd::prelude::*;
use crate::math::spec_trunc_div;

verus! {

#[derive(Copy, Clone, Debug, PartialEq, Eq, Structural)]
pub enum Horizontal {
    Left,
    Middle,
    Right,
}

#[derive(Copy, Clone, Debug, PartialEq, Eq, Structural)]
pub enum Vertical {
    Top,
    Center,
    Bottom,
}

/// One of the nine points of a rectangle.
#[derive(Copy, Clone, Debug, PartialEq, Eq, Structural)]
pub struct Anchor {
    pub h: Horizontal,
    pub v: Vertical,
}

/// Where an anchor lies in a rectangle of `w` by `h` whose top left corner
/// is the origin: at no, half or the full width, and at no, half or the
/// full height. Halves are rounded towards zero.
pub open spec fn spec_anchor_offset(anchor: Anchor, w: int, h: int) -> (int, int) {
    (
        match anchor.h {
            Horizontal::Left => 0,
            Horizontal::Middle => spec_trunc_div(w, 2),
            Horizontal::Right => w,
        },
        match anchor.v {
            Vertical::Top => 0,
            Vertical::Center => spec_trunc_div(h, 2),
            Vertical::Bottom => h,
        },
    )
}

impl Anchor {
    pub fn new(h: Horizontal, v: Vertical) -> (anchor: Anchor)
        ensures
            anchor == (Anchor { h, v }),
    {
        Anchor { h, v }
    }

    /// Where this anchor lies in a rectangle of `w` by `h`.
    pub fn offset(self, w: i32, h: i32) -> (offset: (i32, i32))
        ensures
            offset.0 == spec_anchor_offset(self, w as int, h as int).0,
            offset.1 == spec_anchor_offset(self, w as int, h as int).1,
    {
        anchor_offset(self, w, h)
    }
}

/// Where an anchor lies in a rectangle of `w` by `h`.
pub fn anchor_offset(anchor: Anchor, w: i32, h: i32) -> (offset: (i32, i32))
    ensures
        offset.0 == spec_anchor_offset(anchor, w as int, h as int).0,
        offset.1 == spec_anchor_offset(anchor, w as int, h as int).1,
{
    let x: i32 = match anchor.h {
        Horizontal::Left => 0,
        Horizontal::Middle => w / 2,
        Horizontal::Right => w,
    };
    let y: i32 = match anchor.v {
        Vertical::Top => 0,
        Vertical::Center => h / 2,
        Vertical::Bottom => h,
    };
    (x, y)
}

} // verus!
