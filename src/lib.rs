//! Session engine of a dig-and-destroy mining game: a grid of breakable rock,
//! tools with areas of effect, randomly packed treasures, a stability meter and
//! the state machine of one expedition.

pub mod border;
pub mod catalog;
pub mod consts;
pub mod expedition;
pub mod grid;
pub mod point;
mod random;
pub mod stability;
pub mod tools;
pub mod treasure;
