//! Colour values in five colour spaces, held in exact fixed-point
//! arithmetic, with the edits, the texts and the picker built on them.
//!
//! Every channel is an integer number of millionths of its natural unit: a
//! fraction of 1.0, or a degree of hue. The conversions between RGB, HSV
//! and CMYK are stated over mathematical integers and proved to round-trip
//! through RGB without loss. OKLab and OKLCH are held and edited here; the
//! transforms that reach them take roots, powers and trigonometric
//! functions, and are left to the caller.
//!
//! - `fixed`: clamping, wrapping and scaling with rounding.
//! - `rgb`, `hsv`, `cmyk`, `oklab`, `oklch`: one value type for each space.
//! - `color`: the colour as one of the five, its channel model, its
//!   conversions and its single-channel edits.
//! - `decimal`, `decimal_laws`: plain decimal text, read and written.
//! - `hexcode`: colours as hexadecimal text.
//! - `clipboard`: the text of a colour in its natural units.
//! - `picker`: the colour picker as a state machine.

pub mod fixed;
pub mod hsv;
pub mod cmyk;
pub mod rgb;
pub mod oklab;
pub mod oklch;
pub mod color;
pub mod decimal;
pub mod decimal_laws;
pub mod hexcode;
pub mod clipboard;
pub mod picker;
