//! Errors reported when input text is rejected.
use vstd::prelude::*;

verus! {

/// Why input text could not be turned into a barcode.
#[derive(Debug, Clone, Copy, PartialEq, Eq, Structural)]
pub enum Error {
    /// The number of characters lies outside the symbology's accepted range.
    InvalidLength,
    /// The character at `position` (counted in characters from 0) is not in
    /// the symbology's alphabet.
    InvalidCharacter { position: usize, character: char },
}

} // verus!
