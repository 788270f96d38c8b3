//! The simulation's rectangular half-extent, derived from the viewport.

use crate::math::{div_t, div_trunc};
use vstd::prelude::*;

verus! {

/// Current half-extent of the viewport (milli-units): the play field is
/// `[-half_width, half_width] x [-half_height, half_height]`. Written once
/// per tick, read by the integrator and the spawner.
#[derive(Clone, Copy, PartialEq, Eq, Structural, Debug)]
pub struct Bounds {
    pub half_width: i64,
    pub half_height: i64,
}

/// Half of a viewport extent; a missing or degenerate (non-positive)
/// viewport yields a zero extent, which is defined behaviour, not an error.
pub open spec fn half_extent(w: int) -> int {
    if w >= 0 {
        w / 2
    } else {
        0
    }
}

/// Derives the bounds from the current viewport size (milli-units). Runs
/// before any agent is placed and once per tick thereafter; a zero-size or
/// missing viewport (reported as zero or negative) yields zero bounds.
pub fn update_bounds(viewport_width: i64, viewport_height: i64) -> (b: Bounds)
    ensures
        b.half_width == half_extent(viewport_width as int),
        b.half_height == half_extent(viewport_height as int),
        0 <= b.half_width,
        0 <= b.half_height,
{
    let hw: i64 = if viewport_width > 0 {
        div_trunc(viewport_width, 2)
    } else {
        0
    };
    let hh: i64 = if viewport_height > 0 {
        div_trunc(viewport_height, 2)
    } else {
        0
    };
    proof {
        if viewport_width > 0 {
            vstd::arithmetic::div_mod::lemma_div_pos_is_pos(viewport_width as int, 2);
        }
        if viewport_height > 0 {
            vstd::arithmetic::div_mod::lemma_div_pos_is_pos(viewport_height as int, 2);
        }
        assert(div_t(0, 2) == 0);
    }
    Bounds { half_width: hw, half_height: hh }
}

} // verus!
