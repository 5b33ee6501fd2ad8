//! A chart layout engine.
//!
//! The engine turns a validated numeric request (one or more named series of
//! data points, plus styling options) into a fully laid-out vector drawing
//! for one of thirteen chart kinds.  Layout is pure computation: it happens
//! in a fixed logical canvas (800x600, or 600x400 for the gauge), and the
//! result is an ordered sequence of drawing primitives together with its SVG
//! serialization.  Rasterizing the drawing and transporting requests are the
//! callers' concern.
//!
//! All numeric quantities — data values and canvas coordinates alike — are
//! fixed-point integers counted in thousandths (milli-units), so every
//! geometric claim the engine makes is exact.

pub mod canvas;
pub mod charts;
pub mod models;
pub mod num;
pub mod scale;
pub mod themes;
pub mod trig;
pub mod utils;
