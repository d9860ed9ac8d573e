//! Decode failures: stored bytes or stored row metadata that cannot be
//! turned back into the structured types they were written from.

use vstd::prelude::*;

verus! {

/// Why a decode rejected its input. Decoding never substitutes default data:
/// corrupt input is reported, distinctly from any I/O failure at the caller.
#[derive(Clone, Copy, PartialEq, Eq, Structural, Debug)]
pub enum DecodeError {
    /// The input's length does not fit the encoding being read.
    LengthMismatch,
    /// A row descriptor is corrupt: an allocated row's offset reads past the
    /// end of row storage, or a packed row names a material with no
    /// uniform-row template.
    InvalidRowEntry,
    /// A byte standing for a boolean was neither 0 nor 1.
    InvalidBool,
    /// A decoded count does not lie in its allowed range.
    ValueOutOfRange,
}

impl DecodeError {
    /// A short human-readable description of the failure.
    pub fn describe(&self) -> (r: &'static str)
    {
        match self {
            DecodeError::LengthMismatch => "input length does not match the encoding",
            DecodeError::InvalidRowEntry => "corrupt row descriptor in chunk",
            DecodeError::InvalidBool => "invalid boolean byte",
            DecodeError::ValueOutOfRange => "decoded count out of range",
        }
    }
}

} // verus!
