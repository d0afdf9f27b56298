//! The failure kinds of the generation pipeline.

use vstd::prelude::*;
use vstd::string::*;

verus! {

/// Why a user input was rejected.
///
/// `InvalidFormat`: the colour token is not 6 or 8 hex digits after
/// stripping a leading `#`. `InvalidDigit`: the colour token has the right
/// length but contains a non-hexadecimal character. `RangeOrFormat`: a
/// dimension is empty, non-numeric, zero, or too large.
#[derive(Clone, Copy, Debug, PartialEq, Eq, Structural)]
pub enum GenError {
    InvalidFormat,
    InvalidDigit,
    RangeOrFormat,
}

impl GenError {
    /// A human-readable description of the failure.
    pub fn message(&self) -> (r: String)
        ensures
            *self == GenError::InvalidFormat ==> r@
                == "Color must be a 6-digit (RGB) or 8-digit (RGBA) hex code (e.g., FF0000 for red, FF0000FF for opaque red)"@,
            *self == GenError::InvalidDigit ==> r@
                == "Color contains a character that is not a hexadecimal digit"@,
            *self == GenError::RangeOrFormat ==> r@
                == "Width and height must be whole numbers of at least 1"@,
    {
        match self {
            GenError::InvalidFormat => String::from_str(
                "Color must be a 6-digit (RGB) or 8-digit (RGBA) hex code (e.g., FF0000 for red, FF0000FF for opaque red)",
            ),
            GenError::InvalidDigit => String::from_str(
                "Color contains a character that is not a hexadecimal digit",
            ),
            GenError::RangeOrFormat => String::from_str(
                "Width and height must be whole numbers of at least 1",
            ),
        }
    }
}

} // verus!
