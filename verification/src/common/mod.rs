//! Items shared by every layer: the error type and byte-pattern helpers.

pub mod error;
pub mod test_utils;

pub use error::Error;
