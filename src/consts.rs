//! Texture atlas indices of the expedition sprites.
use vstd::prelude::*;

verus! {

pub const A_ROCK_LOWEST_HP: usize = 0;
pub const A_ROCK_LOW_HP: usize = 1;
pub const A_ROCK_MEDIUM_HP: usize = 2;
pub const A_ROCK_HIGH_HP: usize = 3;
pub const A_GROUND: usize = 5;

pub const A_BORDER_TOP: usize = 8;
pub const A_BORDER_LEFT: usize = 9;
pub const A_BORDER_BOTTOM: usize = 10;
pub const A_BORDER_RIGHT: usize = 11;
pub const A_DARK_GROUND: usize = 13;
pub const A_CORNER_TL: usize = 16;
pub const A_CORNER_BL: usize = 17;
pub const A_CORNER_BR: usize = 18;
pub const A_CORNER_TR: usize = 19;

pub const A_BAR_DECOR_TL: usize = 6;
pub const A_BAR_DECOR_TR: usize = 7;
pub const A_BAR_MID_LEFT: usize = 14;
pub const A_BAR_MID_RIGHT: usize = 15;
pub const A_BAR_DECOR_BL: usize = 22;
pub const A_BAR_DECOR_BR: usize = 23;

} // verus!
