//! The cursor over a buffer of framed values.

use crate::error::BinaryError;
use crate::framing::announced_length;
use crate::framing::spec_announced_length;
use crate::framing::PREFIX_BYTES;
use vstd::prelude::*;

verus! {

/// What a cursor holds: the bytes not yet read, and how many values it may
/// still hand out.
pub struct CursorView {
    pub bytes: Seq<u8>,
    pub remaining: nat,
}

impl CursorView {
    /// The unread bytes start with a complete record: a length prefix and as
    /// many bytes as it announces.
    pub open spec fn has_record(self) -> bool {
        &&& self.bytes.len() >= PREFIX_BYTES
        &&& self.bytes.len() - PREFIX_BYTES >= spec_announced_length(
            self.bytes.subrange(0, PREFIX_BYTES as int),
        )
    }

    /// The number of bytes that the first record takes, prefix included.
    pub open spec fn record_len(self) -> int {
        PREFIX_BYTES + spec_announced_length(self.bytes.subrange(0, PREFIX_BYTES as int))
    }

    /// The value of the first record.
    pub open spec fn record(self) -> Seq<u8> {
        self.bytes.subrange(PREFIX_BYTES as int, self.record_len())
    }

    /// The cursor past the first record.
    pub open spec fn advance(self) -> CursorView {
        CursorView {
            bytes: self.bytes.subrange(self.record_len(), self.bytes.len() as int),
            remaining: (self.remaining - 1) as nat,
        }
    }

    /// The values that a cursor hands out, call after call, until it reports
    /// the end. There are none if a call fails on the way, or if bytes are
    /// left over at the end.
    pub open spec fn drained(self) -> Option<Seq<Seq<u8>>>
        decreases self.remaining,
    {
        if self.remaining == 0 {
            if self.bytes.len() == 0 {
                Some(Seq::empty())
            } else {
                None
            }
        } else if !self.has_record() {
            None
        } else {
            match self.advance().drained() {
                Some(rest) => Some(seq![self.record()] + rest),
                None => None,
            }
        }
    }
}

/// Reads the values of a buffer of framed records, one per call, as slices of
/// that buffer.
#[derive(Debug)]
pub struct BinaryIter<'a> {
    values: &'a [u8],
    /// A maximum number of items that this [`BinaryIter`] may produce.
    ///
    /// This equals the length of the iterator if and only if the data it
    /// reads is not nullable.
    max_num_values: usize,
}

impl<'a> View for BinaryIter<'a> {
    type V = CursorView;

    closed spec fn view(&self) -> CursorView {
        CursorView { bytes: self.values@, remaining: self.max_num_values as nat }
    }
}

impl<'a> BinaryIter<'a> {
    /// A cursor at the start of `values` that may hand out up to
    /// `max_num_values` values.
    pub fn new(values: &'a [u8], max_num_values: usize) -> (iter: Self)
        ensures
            iter@ == (CursorView { bytes: values@, remaining: max_num_values as nat }),
    {
        Self { values, max_num_values }
    }

    /// Return the length of the iterator when the data is not nullable.
    pub fn len_when_not_nullable(&self) -> (count: usize)
        ensures
            count == self@.remaining,
    {
        self.max_num_values
    }

    /// The bytes not yet read.
    pub fn unread(&self) -> (bytes: &'a [u8])
        ensures
            bytes@ == self@.bytes,
    {
        self.values
    }

    /// Hands out the next value and moves past it.
    ///
    /// Reports the end once no value may be handed out any more. Fails, and
    /// stays where it is, if the unread bytes do not start with a complete
    /// record. A cursor that may hand out no more values must have read all
    /// its bytes.
    pub fn next(&mut self) -> (item: Option<Result<&'a [u8], BinaryError>>)
        requires
            old(self)@.remaining == 0 ==> old(self)@.bytes.len() == 0,
        ensures
            match item {
                None => old(self)@.remaining == 0 && final(self)@ == old(self)@,
                Some(Ok(value)) => {
                    &&& old(self)@.remaining > 0
                    &&& old(self)@.has_record()
                    &&& value@ == old(self)@.record()
                    &&& final(self)@ == old(self)@.advance()
                },
                Some(Err(error)) => {
                    &&& old(self)@.remaining > 0
                    &&& !old(self)@.has_record()
                    &&& error == BinaryError::CorruptEncoding
                    &&& final(self)@ == old(self)@
                },
            },
    {
        if self.max_num_values == 0 {
            return None;
        }
        if self.values.len() < PREFIX_BYTES {
            return Some(Err(BinaryError::CorruptEncoding));
        }
        let length = announced_length(self.values) as usize;
        let (_, remaining) = self.values.split_at(PREFIX_BYTES);
        if remaining.len() < length {
            return Some(Err(BinaryError::CorruptEncoding));
        }
        let (result, remaining) = remaining.split_at(length);
        self.max_num_values -= 1;
        self.values = remaining;
        proof {
            assert(result@ =~= old(self)@.record());
            assert(self@.bytes =~= old(self)@.advance().bytes);
        }
        Some(Ok(result))
    }

    /// Bounds on how many values are still to come: none for sure, and no
    /// more than the cursor may hand out.
    pub fn size_hint(&self) -> (hint: (usize, Option<usize>))
        ensures
            hint.0 == 0,
            hint.1 == Some(self@.remaining as usize),
    {
        (0, Some(self.max_num_values))
    }
}

} // verus!
