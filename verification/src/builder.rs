//! The builder of a binary column: values in, offsets and one flat buffer of
//! bytes out.

use crate::error::BinaryError;
use crate::growth::average_value_bytes;
use crate::growth::initial_value_bytes;
use crate::growth::shortfall;
use crate::growth::spec_average_value_bytes;
use crate::width::OffsetWidth;
use vstd::prelude::*;

verus! {

/// What a builder holds: the offsets and the bytes of all values, one after
/// the other.
pub struct BinaryView {
    pub offsets: Seq<int>,
    pub values: Seq<u8>,
}

impl BinaryView {
    /// The offsets start at zero, never decrease, and end at the number of
    /// bytes held.
    pub open spec fn wf(self) -> bool {
        &&& self.offsets.len() >= 1
        &&& self.offsets[0] == 0
        &&& forall|i: int, j: int|
            0 <= i <= j < self.offsets.len() ==> self.offsets[i] <= self.offsets[j]
        &&& self.offsets.last() == self.values.len()
    }

    /// The number of values.
    pub open spec fn len(self) -> nat {
        (self.offsets.len() - 1) as nat
    }

    /// The distance from the `i`-th offset to the next.
    pub open spec fn delta(self, i: int) -> int {
        self.offsets[i + 1] - self.offsets[i]
    }

    /// The `i`-th value: the bytes between the `i`-th offset and the next.
    pub open spec fn value(self, i: int) -> Seq<u8> {
        self.values.subrange(self.offsets[i], self.offsets[i + 1])
    }

    /// All values, in the order in which they were appended.
    pub open spec fn items(self) -> Seq<Seq<u8>> {
        Seq::new(self.len(), |i: int| self.value(i))
    }

    /// The builder without values.
    pub open spec fn empty() -> Self {
        BinaryView { offsets: seq![0int], values: Seq::empty() }
    }

    /// The builder after one more value.
    pub open spec fn push(self, value: Seq<u8>) -> Self {
        BinaryView {
            offsets: self.offsets.push(self.offsets.last() + value.len()),
            values: self.values + value,
        }
    }

    /// The builder after `additional` more values of no bytes.
    pub open spec fn extend_constant(self, additional: nat) -> Self {
        BinaryView {
            offsets: self.offsets + Seq::new(additional, |i: int| self.offsets.last()),
            values: self.values,
        }
    }

    /// The builder after each of `values` was pushed, first to last.
    pub open spec fn push_all(self, values: Seq<Seq<u8>>) -> Self
        decreases values.len(),
    {
        if values.len() == 0 {
            self
        } else {
            self.push_all(values.drop_last()).push(values.last())
        }
    }
}

/// Appending a value keeps a builder well formed and adds that value, and
/// nothing else, to its values.
pub proof fn lemma_push(view: BinaryView, value: Seq<u8>)
    requires
        view.wf(),
    ensures
        view.push(value).wf(),
        view.push(value).len() == view.len() + 1,
        view.push(value).items() == view.items().push(value),
{
    let after = view.push(value);
    assert forall|i: int| 0 <= i < after.len() implies after.value(i) == view.items().push(
        value,
    )[i] by {
        assert(view.offsets[i] <= view.offsets.last());
        if i < view.len() {
            assert(view.offsets[i + 1] <= view.offsets.last());
            assert(after.value(i) =~= view.value(i));
        } else {
            assert(after.value(i) =~= value);
        }
    }
    assert(after.items() =~= view.items().push(value));
}

/// Appending values of no bytes keeps a builder well formed, keeps the values
/// it had, and adds that many empty values.
pub proof fn lemma_extend_constant(view: BinaryView, additional: nat)
    requires
        view.wf(),
    ensures
        view.extend_constant(additional).wf(),
        view.extend_constant(additional).len() == view.len() + additional,
        view.extend_constant(additional).items() == view.items() + Seq::new(
            additional,
            |i: int| Seq::<u8>::empty(),
        ),
{
    let after = view.extend_constant(additional);
    let expected = view.items() + Seq::new(additional, |i: int| Seq::<u8>::empty());
    assert forall|i: int| 0 <= i < after.len() implies after.value(i) == expected[i] by {
        if i < view.len() {
            assert(view.offsets[i] <= view.offsets[i + 1] <= view.offsets.last());
            assert(after.value(i) =~= view.value(i));
        } else {
            assert(after.value(i) =~= Seq::<u8>::empty());
        }
    }
    assert(after.items() =~= expected);
}

/// In a well-formed builder the first offset is zero, no offset is less than
/// one before it, the last offset is the number of bytes held, and each value
/// is as long as the distance between its offset and the next.
pub proof fn lemma_offsets_invariant(view: BinaryView)
    requires
        view.wf(),
    ensures
        view.offsets.len() == view.len() + 1,
        view.offsets[0] == 0,
        forall|i: int, j: int|
            0 <= i <= j < view.offsets.len() ==> view.offsets[i] <= view.offsets[j],
        view.offsets.last() == view.values.len(),
        forall|i: int| 0 <= i < view.len() ==> #[trigger] view.delta(i) == view.items()[i].len(),
{
    assert forall|i: int| 0 <= i < view.len() implies #[trigger] view.delta(i)
        == view.items()[i].len() by {
        assert(0 <= view.offsets[i] <= view.offsets[i + 1] <= view.offsets.last());
    }
}

/// The bytes of a well-formed builder are its values, one after the other,
/// with nothing between them.
pub proof fn lemma_values_are_items_joined(view: BinaryView)
    requires
        view.wf(),
    ensures
        view.values == view.items().flatten(),
    decreases view.offsets.len(),
{
    if view.len() == 0 {
        assert(view.items() =~= Seq::<Seq<u8>>::empty());
        assert(view.values =~= Seq::<u8>::empty());
    } else {
        let cut = view.offsets[view.len() - 1];
        assert(0 <= cut <= view.offsets.last());
        let before = BinaryView {
            offsets: view.offsets.drop_last(),
            values: view.values.subrange(0, cut),
        };
        assert(before.wf());
        assert forall|i: int| 0 <= i < before.len() implies before.value(i) == view.value(i) by {
            assert(view.offsets[i] <= view.offsets[i + 1] <= cut);
            assert(before.value(i) =~= view.value(i));
        }
        assert(view.items() =~= before.items().push(view.value(view.len() - 1)));
        lemma_values_are_items_joined(before);
        before.items().lemma_flatten_push(view.value(view.len() - 1));
        assert(view.values =~= before.values + view.value(view.len() - 1));
    }
}

/// Pushing values one after the other keeps a builder well formed and adds
/// exactly those values, in that order, behind the ones it had: their bytes
/// behind its bytes, and one offset for each, as far from the one before as
/// the value is long.
pub proof fn lemma_push_all(view: BinaryView, values: Seq<Seq<u8>>)
    requires
        view.wf(),
    ensures
        view.push_all(values).wf(),
        view.push_all(values).len() == view.len() + values.len(),
        view.push_all(values).items() == view.items() + values,
        view.push_all(values).values == view.values + values.flatten(),
        forall|i: int|
            0 <= i < values.len() ==> #[trigger] view.push_all(values).delta(view.len() + i)
                == values[i].len(),
    decreases values.len(),
{
    if values.len() == 0 {
        assert(view.items() + values =~= view.items());
        assert(view.values + values.flatten() =~= view.values);
    } else {
        let before = view.push_all(values.drop_last());
        let after = view.push_all(values);
        lemma_push_all(view, values.drop_last());
        lemma_push(before, values.last());
        assert(after.items() =~= view.items() + values);
        assert(after.values =~= view.values + values.flatten()) by {
            values.drop_last().lemma_flatten_push(values.last());
            assert(values.drop_last().push(values.last()) =~= values);
        }
        assert forall|i: int| 0 <= i < values.len() implies #[trigger] after.delta(view.len() + i)
            == values[i].len() by {
            if i < values.len() - 1 {
                assert(after.delta(view.len() + i) == before.delta(view.len() + i));
                assert(values.drop_last()[i] == values[i]);
            }
        }
    }
}

/// Builds the offsets and the flat bytes of a column of byte strings, with
/// offsets of width `O`.
#[derive(Debug)]
pub struct Binary<O: OffsetWidth> {
    offsets: O::Column,
    values: Vec<u8>,
}

impl<O: OffsetWidth> View for Binary<O> {
    type V = BinaryView;

    closed spec fn view(&self) -> BinaryView {
        BinaryView { offsets: O::entries(self.offsets), values: self.values@ }
    }
}

impl<O: OffsetWidth> Default for Binary<O> {
    /// An empty builder.
    fn default() -> (binary: Self)
        ensures
            binary.wf(),
            binary@ == BinaryView::empty(),
    {
        proof {
            O::limits();
        }
        Self::with_capacity(0)
    }
}

/// `Vec::capacity`: the bytes the buffer can hold without allocating again,
/// which are never fewer than it holds. The number depends on the allocator.
#[verifier::external_body]
fn reserved_bytes(values: &Vec<u8>) -> (capacity: usize)
    ensures
        capacity >= values@.len(),
{
    values.capacity()
}

impl<O: OffsetWidth> Binary<O> {
    /// The builder's offsets and bytes belong together, and every offset is
    /// one that the width `O` can represent.
    pub open spec fn wf(&self) -> bool {
        &&& self@.wf()
        &&& self@.offsets.last() <= O::max_offset()
    }

    /// An empty builder with room for `capacity` values. The bytes set aside
    /// for them follow the first guess, see
    /// [`spec_initial_value_bytes`](crate::growth::spec_initial_value_bytes).
    pub fn with_capacity(capacity: usize) -> (binary: Self)
        requires
            capacity < O::max_entries(),
        ensures
            binary.wf(),
            binary@ == BinaryView::empty(),
    {
        proof {
            O::limits();
        }
        Binary {
            offsets: O::column_with_capacity(capacity),
            values: Vec::with_capacity(initial_value_bytes(capacity)),
        }
    }

    /// Appends `v`. Fails, and leaves the builder as it was, if the bytes held
    /// together with those of `v` are more than the offset width can count.
    ///
    /// The push that is handed the last value of the sample, the
    /// [`SAMPLE_SIZE`](crate::growth::SAMPLE_SIZE)-th value, first sets aside
    /// the bytes by which the projection for all announced values exceeds
    /// the bytes set aside so far, see
    /// [`spec_shortfall`](crate::growth::spec_shortfall).
    pub fn push(&mut self, v: &[u8]) -> (pushed: Result<(), BinaryError>)
        requires
            old(self).wf(),
            old(self)@.offsets.len() < O::max_entries(),
        ensures
            final(self).wf(),
            old(self)@.values.len() + v@.len() <= O::max_offset() ==> pushed is Ok && final(self)@
                == old(self)@.push(v@) && final(self)@.items() == old(self)@.items().push(v@),
            old(self)@.values.len() + v@.len() > O::max_offset() ==> pushed == Err::<
                (),
                BinaryError,
            >(BinaryError::OffsetOverflow) && final(self)@ == old(self)@,
    {
        proof {
            O::limits();
        }
        let held = self.values.len();
        let reserved = reserved_bytes(&self.values);
        let missing = match held.checked_add(v.len()) {
            Some(sampled_bytes) => shortfall(
                O::column_len(&self.offsets) + 1,
                O::column_capacity(&self.offsets),
                sampled_bytes,
                reserved,
            ),
            None => 0,
        };
        if missing > 0 {
            // The shortfall counts from the bytes set aside, `Vec::reserve`
            // from the bytes held.
            self.values.reserve(reserved - held + missing);
        }
        match O::column_try_push(&mut self.offsets, v.len()) {
            Ok(()) => {
                self.values.extend_from_slice(v);
                proof {
                    assert(self.values@ =~= old(self).values@ + v@);
                    lemma_push(old(self)@, v@);
                }
                Ok(())
            },
            Err(overflow) => Err(overflow),
        }
    }

    /// Appends `additional` values of no bytes.
    pub fn extend_constant(&mut self, additional: usize)
        requires
            old(self).wf(),
            old(self)@.offsets.len() + additional <= O::max_entries(),
        ensures
            final(self).wf(),
            final(self)@ == old(self)@.extend_constant(additional as nat),
            final(self)@.len() == old(self)@.len() + additional,
            final(self)@.values == old(self)@.values,
            forall|i: int|
                old(self)@.len() <= i < final(self)@.len() ==> #[trigger] final(self)@.delta(i)
                    == 0,
            final(self)@.items() == old(self)@.items() + Seq::new(
                additional as nat,
                |i: int| Seq::<u8>::empty(),
            ),
    {
        O::column_extend_constant(&mut self.offsets, additional);
        proof {
            lemma_extend_constant(old(self)@, additional as nat);
        }
    }

    /// The number of values appended so far.
    pub fn len(&self) -> (count: usize)
        ensures
            count == self@.len(),
    {
        O::column_len(&self.offsets)
    }

    /// Makes room for `additional` more values, at the bytes per value of
    /// [`spec_average_value_bytes`]. What the builder holds stays as it is.
    pub fn reserve(&mut self, additional: usize)
        requires
            old(self).wf(),
            old(self)@.offsets.len() + additional <= O::max_entries(),
            old(self)@.values.len() + additional <= isize::MAX,
        ensures
            final(self).wf(),
            final(self)@ == old(self)@,
    {
        let last = O::column_last(&self.offsets);
        let average = average_value_bytes(self.values.len(), last);
        proof {
            lemma_average_of_whole(last as int);
        }
        assert(additional * average <= additional) by (nonlinear_arith)
            requires
                0 <= average <= 1,
                additional >= 0,
        ;
        self.values.reserve(additional * average);
        O::column_reserve(&mut self.offsets, additional);
    }

    /// Appends a null, which this builder holds as a value of no bytes.
    pub fn push_null(&mut self)
        requires
            old(self).wf(),
            old(self)@.offsets.len() < O::max_entries(),
        ensures
            final(self).wf(),
            final(self)@ == old(self)@.push(Seq::<u8>::empty()),
            final(self)@.items() == old(self)@.items().push(Seq::<u8>::empty()),
    {
        let empty: Vec<u8> = Vec::new();
        let pushed = self.push(empty.as_slice());
        assert(pushed is Ok);
    }

    /// Appends `additional` copies of `value`, which must be empty: the
    /// builder repeats no bytes.
    pub fn extend_constant_value(&mut self, additional: usize, value: &[u8])
        requires
            old(self).wf(),
            old(self)@.offsets.len() + additional <= O::max_entries(),
            value@.len() == 0,
        ensures
            final(self).wf(),
            final(self)@ == old(self)@.extend_constant(additional as nat),
            final(self)@.items() == old(self)@.items() + Seq::new(
                additional as nat,
                |i: int| value@,
            ),
    {
        self.extend_constant(additional);
        assert(value@ =~= Seq::<u8>::empty());
        assert(Seq::new(additional as nat, |i: int| value@) =~= Seq::new(
            additional as nat,
            |i: int| Seq::<u8>::empty(),
        ));
    }

    /// Appends `additional` nulls.
    pub fn extend_null_constant(&mut self, additional: usize)
        requires
            old(self).wf(),
            old(self)@.offsets.len() + additional <= O::max_entries(),
        ensures
            final(self).wf(),
            final(self)@ == old(self)@.extend_constant(additional as nat),
            final(self)@.items() == old(self)@.items() + Seq::new(
                additional as nat,
                |i: int| Seq::<u8>::empty(),
            ),
    {
        self.extend_constant(additional)
    }

    /// The bytes of all values appended so far.
    pub fn values(&self) -> (values: &Vec<u8>)
        ensures
            values@ == self@.values,
    {
        &self.values
    }

    /// Hands out the offsets, as stored, and the bytes.
    pub fn into_parts(self) -> (parts: (Vec<O>, Vec<u8>))
        ensures
            parts.0@.len() == self@.offsets.len(),
            forall|i: int|
                0 <= i < parts.0@.len() ==> (#[trigger] parts.0@[i]).value() == self@.offsets[i],
            parts.1@ == self@.values,
    {
        (O::column_into_vec(self.offsets), self.values)
    }
}

/// A whole divided by itself is one, and nothing divided by one is nothing.
proof fn lemma_average_of_whole(whole: int)
    requires
        whole >= 0,
    ensures
        0 <= spec_average_value_bytes(whole, whole) <= 1,
{
    if whole >= 1 {
        assert(whole / whole == 1) by (nonlinear_arith)
            requires
                whole >= 1,
        ;
    }
}

} // verus!
