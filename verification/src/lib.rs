//! A rotating torus rendered as ASCII art, computed in exact integer arithmetic.
//!
//! The crate is the pure core of a terminal animation: it samples the surface
//! of a torus, rotates and projects every sample onto a square character grid,
//! resolves visibility with a depth buffer and shades each visible cell with a
//! glyph chosen by brightness. A small controller keeps the two rotation angles
//! and the playback mode, and a planner turns a finished grid into the cursor
//! commands a terminal has to execute.
//!
//! Nothing here touches a terminal, a clock or floating point. Sines and
//! cosines enter as fixed-point values ([`trig::Trig`]), angles are whole
//! micro-radians, and time is a millisecond counter supplied by the caller.

pub mod angle;
pub mod config;
pub mod donut;
pub mod drawer;
pub mod frame;
pub mod input;
pub mod sampler;
pub mod shade;
pub mod trig;
