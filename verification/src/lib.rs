//! Building and reading variable-length binary columns.
//!
//! [`Binary`] accumulates byte strings into an offsets column and one flat
//! buffer of value bytes. [`BinaryIter`] walks a buffer of length-prefixed
//! records and hands out each value as a slice of that buffer.

pub mod builder;
pub mod cursor;
pub mod error;
pub mod framing;
pub mod growth;
pub mod offsets;
pub mod roundtrip;
pub mod width;

pub use builder::Binary;
pub use builder::BinaryView;
pub use cursor::BinaryIter;
pub use cursor::CursorView;
pub use error::BinaryError;
pub use width::OffsetWidth;
