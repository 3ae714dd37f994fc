//! Errors raised while constructing or laying out regions.

use vstd::prelude::*;

verus! {

/// Why a region could not be constructed or rendered.
///
/// Configuration problems (bad geometry, bad colors, missing fonts) are
/// detected when a region is constructed; layout itself never fails on
/// overflow, which is handled by pagination.
#[derive(Debug, Clone, PartialEq, Eq, Structural)]
pub enum Error {
    /// A color string was not understood by the CSS color parser.
    InvalidColor,
    /// A font name was looked up that was never registered.
    FontNotFound,
    /// Table head percentages do not sum to exactly one hundred percent.
    InvalidColumnPercentages,
    /// A data row's column count does not match the cell templates.
    ColumnCountMismatch,
    /// A dynamic font size was declared with its maximum below its minimum.
    InvalidFontSize,
    /// A group holds a child region kind that groups cannot carry.
    UnsupportedGroupChild,
    /// A numeric input was outside the range the engine can lay out.
    ValueOutOfRange,
}

impl Error {
    /// A short human-readable description of the error.
    pub fn message(&self) -> (r: &'static str)
        ensures
            r@.len() > 0,
    {
        proof {
            reveal_strlit("invalid color");
            reveal_strlit("font not registered");
            reveal_strlit("total of column width must be 100%");
            reveal_strlit("column count does not match cell templates");
            reveal_strlit("dynamic font size maximum is below its minimum");
            reveal_strlit("group does not support this child kind");
            reveal_strlit("value out of layout range");
        }
        match self {
            Error::InvalidColor => "invalid color",
            Error::FontNotFound => "font not registered",
            Error::InvalidColumnPercentages => "total of column width must be 100%",
            Error::ColumnCountMismatch => "column count does not match cell templates",
            Error::InvalidFontSize => "dynamic font size maximum is below its minimum",
            Error::UnsupportedGroupChild => "group does not support this child kind",
            Error::ValueOutOfRange => "value out of layout range",
        }
    }
}

} // verus!
