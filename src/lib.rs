//! Blink: a pop-up command bar.
//!
//! The library holds the typed configuration of the bar (window size and
//! location, font size, colors), the parsers that read it from strings, and
//! the resolution of a size and location specification into pixel geometry
//! on a monitor.
pub mod config;
pub mod geometry;
pub mod laws;
pub mod text;

pub use config::{Color, Config, FontSize, Fraction, ParseError, WindowPosition, WindowSize};
pub use geometry::{
    position_window, resolve_position, resolve_size, Extent, MonitorGeometry, Position,
    WindowGeometry,
};
