//! The wire format of a run of binary values: each value is preceded by its
//! length in bytes, written as four bytes, least significant first.

use vstd::prelude::*;

verus! {

/// The number of bytes of a length prefix.
pub const PREFIX_BYTES: usize = 4;

/// The length that the four bytes of `prefix` announce.
pub open spec fn spec_announced_length(prefix: Seq<u8>) -> int {
    prefix[0] + prefix[1] * 0x100 + prefix[2] * 0x1_0000 + prefix[3] * 0x100_0000
}

/// The four bytes that announce `length`.
pub open spec fn spec_length_prefix(length: int) -> Seq<u8> {
    seq![
        (length % 0x100) as u8,
        (length / 0x100 % 0x100) as u8,
        (length / 0x1_0000 % 0x100) as u8,
        (length / 0x100_0000 % 0x100) as u8,
    ]
}

/// One value on the wire: its length prefix, then its bytes.
pub open spec fn spec_framed(value: Seq<u8>) -> Seq<u8> {
    spec_length_prefix(value.len() as int) + value
}

/// A run of values on the wire, first to last.
pub open spec fn spec_framed_all(values: Seq<Seq<u8>>) -> Seq<u8>
    decreases values.len(),
{
    if values.len() == 0 {
        Seq::empty()
    } else {
        spec_framed(values.first()) + spec_framed_all(values.drop_first())
    }
}

/// Computes [`spec_announced_length`] of the four bytes at the start of
/// `bytes`.
pub fn announced_length(bytes: &[u8]) -> (length: u32)
    requires
        bytes@.len() >= PREFIX_BYTES,
    ensures
        length == spec_announced_length(bytes@.subrange(0, PREFIX_BYTES as int)),
{
    let b0: u32 = bytes[0] as u32;
    let b1: u32 = bytes[1] as u32;
    let b2: u32 = bytes[2] as u32;
    let b3: u32 = bytes[3] as u32;
    b0 + b1 * 0x100 + b2 * 0x1_0000 + b3 * 0x100_0000
}

/// A length that four bytes can announce is the length that its prefix
/// announces.
pub proof fn lemma_prefix_announces_length(length: int)
    requires
        0 <= length <= u32::MAX,
    ensures
        spec_length_prefix(length).len() == PREFIX_BYTES,
        spec_announced_length(spec_length_prefix(length)) == length,
{
}

} // verus!
