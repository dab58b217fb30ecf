//! Encoder for the MSI (Modified Plessey) barcode symbology.
//!
//! Input text is validated against the symbology's length range and alphabet,
//! turned into a sequence of digit values, and encoded into a sequence of
//! modules (0 for a space unit, 1 for a bar unit) framed by guard patterns and
//! closed by a modulo-10 check digit.
pub mod error;
pub mod helpers;
pub mod msi;
pub mod parse;
