//! The concrete simulation systems, one module each.

pub mod collision;
pub mod gravity;
pub mod movement;
pub mod print_position;
pub mod renderer;
