//! The decorative frame drawn around the breakable grid.
use vstd::prelude::*;

use crate::consts::{
    A_BORDER_BOTTOM, A_BORDER_LEFT, A_BORDER_RIGHT, A_BORDER_TOP, A_CORNER_BL, A_CORNER_BR,
    A_CORNER_TL, A_CORNER_TR, A_DARK_GROUND,
};

verus! {

/// Which frame piece sits at `(x, y)` around a grid of `w` by `h` cells: the
/// ring one cell outside the grid gets corners and edges, everything further
/// out (and, by default, anything else) is dark ground.
pub open spec fn border_piece(x: int, y: int, w: int, h: int) -> usize {
    if x < -1 || y < -1 || x > w || y > h {
        A_DARK_GROUND
    } else if x == -1 {
        if y == -1 {
            A_CORNER_BL
        } else if y == h {
            A_CORNER_TL
        } else {
            A_BORDER_LEFT
        }
    } else if x == w {
        if y == -1 {
            A_CORNER_BR
        } else if y == h {
            A_CORNER_TR
        } else {
            A_BORDER_RIGHT
        }
    } else if y == -1 {
        A_BORDER_BOTTOM
    } else if y == h {
        A_BORDER_TOP
    } else {
        A_DARK_GROUND
    }
}

/// Atlas index of the frame piece at `(x, y)` around a grid of size `grid`.
pub fn get_border_atlas_idx(x: i32, y: i32, grid: (i32, i32)) -> (r: usize)
    ensures
        r == border_piece(x as int, y as int, grid.0 as int, grid.1 as int),
{
    if x < -1 || y < -1 || x > grid.0 || y > grid.1 {
        A_DARK_GROUND
    } else if x == -1 {
        if y == -1 {
            A_CORNER_BL
        } else if y == grid.1 {
            A_CORNER_TL
        } else {
            A_BORDER_LEFT
        }
    } else if x == grid.0 {
        if y == -1 {
            A_CORNER_BR
        } else if y == grid.1 {
            A_CORNER_TR
        } else {
            A_BORDER_RIGHT
        }
    } else if y == -1 {
        A_BORDER_BOTTOM
    } else if y == grid.1 {
        A_BORDER_TOP
    } else {
        A_DARK_GROUND
    }
}

} // verus!
