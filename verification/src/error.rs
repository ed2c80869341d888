use vstd::prelude::*;

verus! {

/// Why a column could not be built or read.
#[derive(Clone, Copy, Debug, PartialEq, Eq, Structural)]
pub enum BinaryError {
    /// The bytes held so far plus the new value exceed what the offset width
    /// can represent.
    OffsetOverflow,
    /// The raw bytes end before a length prefix, or the value it announces,
    /// is complete.
    CorruptEncoding,
}

} // verus!
