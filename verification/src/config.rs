//! Where the surface sits on the screen, and the settings that shape it.

use vstd::prelude::*;

verus! {

/// Which corner the surface sticks to.
#[derive(Clone, Copy, Debug, PartialEq, Eq, Structural)]
pub enum Corner {
    TopRight,
    TopLeft,
    BottomRight,
    BottomLeft,
}

impl Default for Corner {
    fn default() -> (c: Self)
        ensures
            c == Corner::TopRight,
    {
        Corner::TopRight
    }
}

impl Corner {
    pub open spec fn is_top(self) -> bool {
        self is TopRight || self is TopLeft
    }

    pub open spec fn is_right(self) -> bool {
        self is TopRight || self is BottomRight
    }
}

/// The edges a layer surface is anchored to, and its margin from each edge.
/// A margin is only ever nonzero on an anchored edge.
#[derive(Clone, Copy, Debug, PartialEq, Eq, Structural)]
pub struct Placement {
    pub top: bool,
    pub bottom: bool,
    pub left: bool,
    pub right: bool,
    pub margin_top: i32,
    pub margin_right: i32,
    pub margin_bottom: i32,
    pub margin_left: i32,
}

/// The anchoring for `corner`, with `margin` on the two edges it touches.
pub open spec fn placement_for(corner: Corner, margin: i32) -> Placement {
    let top = corner.is_top();
    let right = corner.is_right();
    Placement {
        top: top,
        bottom: !top,
        left: !right,
        right: right,
        margin_top: if top { margin } else { 0 },
        margin_right: if right { margin } else { 0 },
        margin_bottom: if !top { margin } else { 0 },
        margin_left: if !right { margin } else { 0 },
    }
}

/// Anchor the surface to the two edges that meet at `corner`, `margin` pixels
/// in from each of them.
pub fn placement(corner: Corner, margin: i32) -> (p: Placement)
    ensures
        p == placement_for(corner, margin),
{
    match corner {
        Corner::TopRight => Placement {
            top: true,
            bottom: false,
            left: false,
            right: true,
            margin_top: margin,
            margin_right: margin,
            margin_bottom: 0,
            margin_left: 0,
        },
        Corner::TopLeft => Placement {
            top: true,
            bottom: false,
            left: true,
            right: false,
            margin_top: margin,
            margin_right: 0,
            margin_bottom: 0,
            margin_left: margin,
        },
        Corner::BottomRight => Placement {
            top: false,
            bottom: true,
            left: false,
            right: true,
            margin_top: 0,
            margin_right: margin,
            margin_bottom: margin,
            margin_left: 0,
        },
        Corner::BottomLeft => Placement {
            top: false,
            bottom: true,
            left: true,
            right: false,
            margin_top: 0,
            margin_right: 0,
            margin_bottom: margin,
            margin_left: margin,
        },
    }
}

/// The settings that decide the surface itself: a change to any of them means
/// the layer surface has to be replaced, since it cannot be resized in place.
#[derive(Clone, Copy, Debug, PartialEq, Eq, Structural)]
pub struct Geometry {
    /// Surface size in logical pixels.
    pub width: u32,
    pub height: u32,
    /// Gap between the surface and the screen edges it is anchored to.
    pub margin: i32,
    pub corner: Corner,
}

/// Animation frames per second actually used: the setting held to `5..=120`.
pub open spec fn spec_frame_rate(fps: u16) -> u16 {
    if fps < 5 {
        5
    } else if fps > 120 {
        120
    } else {
        fps
    }
}

/// The frame rate the animation ticks at, from the configured `fps`.
pub fn frame_rate(fps: u16) -> (r: u16)
    ensures
        r == spec_frame_rate(fps),
        5 <= r <= 120,
        5 <= fps <= 120 ==> r == fps,
        fps < 5 ==> r == 5,
        fps > 120 ==> r == 120,
{
    if fps < 5 {
        5
    } else if fps > 120 {
        120
    } else {
        fps
    }
}

/// Every corner anchors the surface to exactly one horizontal and exactly one
/// vertical screen edge, with `margin` on those two edges and none elsewhere.
pub proof fn lemma_placement_one_corner(corner: Corner, margin: i32)
    ensures
        ({
            let p = placement_for(corner, margin);
            &&& p.top != p.bottom
            &&& p.left != p.right
            &&& p.margin_top == (if p.top { margin } else { 0 })
            &&& p.margin_bottom == (if p.bottom { margin } else { 0 })
            &&& p.margin_left == (if p.left { margin } else { 0 })
            &&& p.margin_right == (if p.right { margin } else { 0 })
        }),
{
}

/// Each corner anchors the surface to that corner's own two edges, whatever
/// the margin, and puts the margin on exactly those two edges.
pub proof fn lemma_placement_anchors_own_corner(margin: i32)
    ensures
        placement_for(Corner::TopRight, margin) == (Placement {
            top: true,
            bottom: false,
            left: false,
            right: true,
            margin_top: margin,
            margin_right: margin,
            margin_bottom: 0,
            margin_left: 0,
        }),
        placement_for(Corner::TopLeft, margin) == (Placement {
            top: true,
            bottom: false,
            left: true,
            right: false,
            margin_top: margin,
            margin_right: 0,
            margin_bottom: 0,
            margin_left: margin,
        }),
        placement_for(Corner::BottomRight, margin) == (Placement {
            top: false,
            bottom: true,
            left: false,
            right: true,
            margin_top: 0,
            margin_right: margin,
            margin_bottom: margin,
            margin_left: 0,
        }),
        placement_for(Corner::BottomLeft, margin) == (Placement {
            top: false,
            bottom: true,
            left: true,
            right: false,
            margin_top: 0,
            margin_right: 0,
            margin_bottom: margin,
            margin_left: margin,
        }),
{
}

/// Which edges are anchored depends on the corner alone: two margins give the
/// same anchoring for the same corner.
pub proof fn lemma_anchoring_ignores_margin(corner: Corner, m1: i32, m2: i32)
    ensures
        placement_for(corner, m1).top == placement_for(corner, m2).top,
        placement_for(corner, m1).bottom == placement_for(corner, m2).bottom,
        placement_for(corner, m1).left == placement_for(corner, m2).left,
        placement_for(corner, m1).right == placement_for(corner, m2).right,
{
}

/// The frame rate is the setting wherever it lies in `5..=120`, and the
/// nearer bound elsewhere.
pub proof fn lemma_frame_rate_clamps(fps: u16)
    ensures
        5 <= fps <= 120 ==> spec_frame_rate(fps) == fps,
        fps < 5 ==> spec_frame_rate(fps) == 5,
        fps > 120 ==> spec_frame_rate(fps) == 120,
{
}

/// Different corners give different anchorings, so the corner setting is never
/// lost on the way to the compositor.
pub proof fn lemma_placement_distinguishes_corners(a: Corner, b: Corner, margin: i32)
    requires
        a != b,
    ensures
        placement_for(a, margin) != placement_for(b, margin),
{
}

} // verus!
