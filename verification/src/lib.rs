//! Driver core for Inky e-paper panels.
//!
//! The library holds everything about the panels that can be stated and
//! checked as pure logic: the color model, the per-family pixel packers,
//! the exact register-write plans an update must perform, the busy-wait
//! policy, and the canvas with its shape rasterizers.  Executing a plan
//! against real GPIO/SPI hardware is left to an unverified shell around
//! this crate.

pub mod canvas;
pub mod color;
pub mod descriptor;
pub mod display;
pub mod errors;
pub mod inky;
pub mod inkye673;
pub mod inkywhat;
pub mod shapes;

pub use canvas::Canvas;
pub use color::Color;
pub use descriptor::{DisplayVariant, PanelDescriptor};
pub use display::{
    BusPolicy, BusStep, HwStep, InkyDisplay, SpiPacket, WaitMethod,
};
pub use errors::InkyError;
pub use inky::{Driver, Inky};
pub use inkye673::InkyE673;
pub use inkywhat::InkyWhat;
pub use shapes::{Drawable, Line, Rectangle};
