//! The screen side of a software Doom renderer: buffers, the health bleed, the
//! screen wipe, and what the display backends decide.

pub mod bleed;
pub mod display;
pub mod draw;
pub mod frame;
pub mod num;
pub mod post;
pub mod shape;
pub mod size;
pub mod target;
pub mod wipe;
