//! A tile world seen through a scrolling camera and drawn as coloured text.
//!
//! The crate holds the deterministic core of a terminal world viewer: the
//! terrain grid and its text format, the projection of a camera window onto a
//! screen buffer, the frame clock's arithmetic and the movement intent that
//! key presses and the decay timer drive. Threads, the terminal and the wall
//! clock live with the caller, who feeds this crate plain values.

pub mod clock;
pub mod game;
pub mod input;
pub mod screen;
pub mod square;
pub mod vector;
pub mod world;
