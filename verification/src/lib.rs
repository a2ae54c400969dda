//! Verified core of a small LED-matrix music display: a monochrome surface,
//! a scene pool with predicate-gated rotation, a pixel-migration transition
//! engine, and the register-level protocol for a chain of 8x8 matrix drivers.

pub mod geom;
pub mod transition;
pub mod bitmap;
pub mod display;
pub mod info;
pub mod font;
pub mod scene;
pub mod graphics;
pub mod pipeline;

pub use pipeline::ControlStatus;
