//! The ways in which a line of input can fail to parse.

use vstd::prelude::*;

verus! {

/// Why a line of input could not be parsed into a `Message`.
#[derive(Clone, Copy, Debug, PartialEq, Eq, Structural)]
pub enum MessageParseError {
    /// The input bytes are not valid UTF-8; detected before tokenizing.
    InvalidEncoding,
    /// A phase of the grammar ran past the end of the buffer while still
    /// expecting a delimiter or a mandatory field.
    UnexpectedEndOfInput,
}

impl MessageParseError {
    /// A short description of the error, for display by callers.
    pub fn describe(&self) -> &'static str {
        match self {
            MessageParseError::InvalidEncoding => "Invalid UTF-8 input",
            MessageParseError::UnexpectedEndOfInput => {
                "Unexpected End of Input (malformed message)."
            },
        }
    }
}

} // verus!
