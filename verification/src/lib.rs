#![verifier::loop_isolation(false)]
//! A declarative page-template layout engine.
//!
//! A template is a list of typed regions (text, tables, images, shapes,
//! groups) with page-space geometry.  The engine measures text against
//! glyph metrics, wraps it into width-constrained lines, searches for
//! font sizes that fill a box, flows long content across page
//! boundaries, and lays out tables with repeated headers and
//! alternating row shading.  The result is a page-indexed buffer of
//! drawing instructions for an external document writer.
//!
//! All lengths are integers in thousandths of the page-space unit, so
//! every computation here is exact.

pub mod color;
pub mod dynamic_text;
pub mod error;
pub mod fit;
pub mod font;
pub mod geom;
pub mod group;
pub mod image;
pub mod kinsoku;
pub mod line;
pub mod ops;
pub mod qrcode;
pub mod rect;
pub mod svg;
pub mod table;
pub mod template;
pub mod text;
pub mod transform;
pub mod wrap;

use vstd::prelude::*;

verus! {

/// One thousandth of a page-space unit: the resolution of every length
/// in this crate.
pub const LENGTH_SCALE: i64 = 1000;

} // verus!
