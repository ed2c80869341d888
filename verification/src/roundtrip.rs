//! What is written in frames is read back unchanged.

use crate::builder::lemma_push_all;
use crate::builder::BinaryView;
use crate::cursor::CursorView;
use crate::framing::lemma_prefix_announces_length;
use crate::framing::spec_framed_all;
use crate::framing::spec_length_prefix;
use crate::framing::PREFIX_BYTES;
use vstd::prelude::*;

verus! {

/// Every value is short enough for a length prefix to announce it.
pub open spec fn spec_framable(values: Seq<Seq<u8>>) -> bool {
    forall|i: int| 0 <= i < values.len() ==> (#[trigger] values[i]).len() <= u32::MAX
}

/// A cursor over the frames of `values` that may hand out as many values as
/// there are hands out exactly `values`, in order, and then has read all its
/// bytes.
pub proof fn lemma_drained_frames(values: Seq<Seq<u8>>)
    requires
        spec_framable(values),
    ensures
        (CursorView { bytes: spec_framed_all(values), remaining: values.len() }).drained() == Some(
            values,
        ),
    decreases values.len(),
{
    let cursor = CursorView { bytes: spec_framed_all(values), remaining: values.len() };
    if values.len() == 0 {
        assert(values =~= Seq::<Seq<u8>>::empty());
    } else {
        let first = values.first();
        let rest = values.drop_first();
        assert(spec_framable(rest)) by {
            assert forall|i: int| 0 <= i < rest.len() implies (#[trigger] rest[i]).len()
                <= u32::MAX by {
                assert(rest[i] == values[i + 1]);
            }
        }
        lemma_prefix_announces_length(first.len() as int);
        let prefix = spec_length_prefix(first.len() as int);
        assert(cursor.bytes == prefix + first + spec_framed_all(rest));
        assert(cursor.bytes.subrange(0, PREFIX_BYTES as int) =~= prefix);
        assert(cursor.record() =~= first);
        assert(cursor.advance().bytes =~= spec_framed_all(rest));
        lemma_drained_frames(rest);
        assert(seq![first] + rest =~= values);
    }
}

/// Values that are framed, read back by a cursor and pushed, in the order
/// read, into an empty builder are the values that the builder then holds.
pub proof fn lemma_round_trip(values: Seq<Seq<u8>>)
    requires
        spec_framable(values),
    ensures
        ({
            let cursor = CursorView { bytes: spec_framed_all(values), remaining: values.len() };
            &&& cursor.drained() is Some
            &&& BinaryView::empty().push_all(cursor.drained().unwrap()).wf()
            &&& BinaryView::empty().push_all(cursor.drained().unwrap()).items() == values
        }),
{
    lemma_drained_frames(values);
    lemma_push_all(BinaryView::empty(), values);
    assert(BinaryView::empty().items() + values =~= values);
}

} // verus!
