//! Errors of reading a color from text.
use vstd::prelude::*;

verus! {

/// Why a text names no color.
#[derive(Copy, Clone, Debug, PartialEq, Eq, Structural)]
pub enum ColorParseError {
    ColorNotFound,
    BadHexFormat,
}

impl ColorParseError {
    /// A short description of the error.
    pub fn description(&self) -> (r: &'static str)
        ensures
            *self == ColorParseError::ColorNotFound ==> r@ == "Color not found"@,
            *self == ColorParseError::BadHexFormat ==> r@ == "Bad hex format"@,
    {
        match self {
            ColorParseError::ColorNotFound => "Color not found",
            ColorParseError::BadHexFormat => "Bad hex format",
        }
    }
}

} // verus!
