//! The two offset widths a column can be built with, `i32` and `i64`, behind
//! one interface.

use crate::error::BinaryError;
use crate::offsets::narrow_capacity;
use crate::offsets::narrow_entries;
use crate::offsets::narrow_extend_constant;
use crate::offsets::narrow_into_inner;
use crate::offsets::narrow_last;
use crate::offsets::narrow_len_proxy;
use crate::offsets::narrow_reserve;
use crate::offsets::narrow_try_push;
use crate::offsets::narrow_with_capacity;
use crate::offsets::wide_capacity;
use crate::offsets::wide_entries;
use crate::offsets::wide_extend_constant;
use crate::offsets::wide_into_inner;
use crate::offsets::wide_last;
use crate::offsets::wide_len_proxy;
use crate::offsets::wide_reserve;
use crate::offsets::wide_try_push;
use crate::offsets::wide_with_capacity;
use crate::offsets::NarrowOffsets;
use crate::offsets::WideOffsets;
use vstd::prelude::*;

verus! {

/// An integer type that offsets are stored in, together with the column that
/// stores them.
///
/// The contracts speak of a column through [`OffsetWidth::entries`], its
/// entries as mathematical integers.
pub trait OffsetWidth: Sized {
    /// The column of offsets of this width.
    type Column;

    /// The largest offset this width can represent.
    spec fn max_offset() -> int;

    /// The most entries a column of this width can hold in one allocation.
    spec fn max_entries() -> int;

    /// The value of one stored offset.
    spec fn value(self) -> int;

    /// The entries of a column, first to last.
    spec fn entries(column: Self::Column) -> Seq<int>;

    /// Both limits leave room for the column that holds the single offset
    /// zero, and the entries of a column can be counted in a `usize`.
    proof fn limits()
        ensures
            Self::max_offset() >= 0,
            1 <= Self::max_entries() <= usize::MAX,
    ;

    /// A column whose only entry is zero, with room for `capacity` more.
    fn column_with_capacity(capacity: usize) -> (column: Self::Column)
        requires
            capacity < Self::max_entries(),
        ensures
            Self::entries(column) == seq![0int],
    ;

    /// The number of entries after the first.
    fn column_len(column: &Self::Column) -> (count: usize)
        ensures
            count + 1 == Self::entries(*column).len(),
    ;

    /// The number of entries after the first that the column has room for:
    /// as many as it holds, or more.
    fn column_capacity(column: &Self::Column) -> (capacity: usize)
        ensures
            capacity + 1 >= Self::entries(*column).len(),
    ;

    /// Makes room for `additional` more entries.
    fn column_reserve(column: &mut Self::Column, additional: usize)
        requires
            Self::entries(*old(column)).len() + additional <= Self::max_entries(),
        ensures
            Self::entries(*final(column)) == Self::entries(*old(column)),
    ;

    /// The last entry.
    fn column_last(column: &Self::Column) -> (last: usize)
        requires
            Self::entries(*column).len() > 0,
            0 <= Self::entries(*column).last() <= usize::MAX,
        ensures
            last == Self::entries(*column).last(),
    ;

    /// Appends the last entry plus `length` if the width can represent that
    /// sum, and reports an overflow otherwise.
    fn column_try_push(column: &mut Self::Column, length: usize) -> (pushed: Result<
        (),
        BinaryError,
    >)
        requires
            0 < Self::entries(*old(column)).len() < Self::max_entries(),
            0 <= Self::entries(*old(column)).last() <= usize::MAX,
        ensures
            Self::entries(*old(column)).last() + length <= Self::max_offset() ==> pushed is Ok
                && Self::entries(*final(column)) == Self::entries(*old(column)).push(
                Self::entries(*old(column)).last() + length,
            ),
            Self::entries(*old(column)).last() + length > Self::max_offset() ==> pushed == Err::<
                (),
                BinaryError,
            >(BinaryError::OffsetOverflow) && Self::entries(*final(column)) == Self::entries(
                *old(column),
            ),
    ;

    /// Appends `additional` copies of the last entry.
    fn column_extend_constant(column: &mut Self::Column, additional: usize)
        requires
            Self::entries(*old(column)).len() > 0,
            Self::entries(*old(column)).len() + additional <= Self::max_entries(),
        ensures
            Self::entries(*final(column)) == Self::entries(*old(column)) + Seq::new(
                additional as nat,
                |i: int| Self::entries(*old(column)).last(),
            ),
    ;

    /// The entries as a vector of stored offsets.
    fn column_into_vec(column: Self::Column) -> (stored: Vec<Self>)
        ensures
            stored@.len() == Self::entries(column).len(),
            forall|i: int|
                0 <= i < stored@.len() ==> (#[trigger] stored@[i]).value() == Self::entries(
                    column,
                )[i],
    ;
}

impl OffsetWidth for i32 {
    type Column = NarrowOffsets;

    open spec fn max_offset() -> int {
        i32::MAX as int
    }

    open spec fn max_entries() -> int {
        isize::MAX / 4
    }

    open spec fn value(self) -> int {
        self as int
    }

    open spec fn entries(column: NarrowOffsets) -> Seq<int> {
        narrow_entries(column).map_values(|offset: i32| offset as int)
    }

    proof fn limits() {
    }

    fn column_with_capacity(capacity: usize) -> (column: NarrowOffsets) {
        let column = narrow_with_capacity(capacity);
        assert(Self::entries(column) =~= seq![0int]);
        column
    }

    fn column_len(column: &NarrowOffsets) -> (count: usize) {
        narrow_len_proxy(column)
    }

    fn column_capacity(column: &NarrowOffsets) -> (capacity: usize) {
        narrow_capacity(column)
    }

    fn column_reserve(column: &mut NarrowOffsets, additional: usize) {
        narrow_reserve(column, additional)
    }

    fn column_last(column: &NarrowOffsets) -> (last: usize) {
        narrow_last(column)
    }

    fn column_try_push(column: &mut NarrowOffsets, length: usize) -> (pushed: Result<
        (),
        BinaryError,
    >) {
        let pushed = match narrow_try_push(column, length) {
            Ok(()) => Ok(()),
            Err(_) => Err(BinaryError::OffsetOverflow),
        };
        assert(pushed is Ok ==> Self::entries(*column) =~= Self::entries(*old(column)).push(
            Self::entries(*old(column)).last() + length,
        ));
        pushed
    }

    fn column_extend_constant(column: &mut NarrowOffsets, additional: usize) {
        narrow_extend_constant(column, additional);
        assert(Self::entries(*column) =~= Self::entries(*old(column)) + Seq::new(
            additional as nat,
            |i: int| Self::entries(*old(column)).last(),
        ));
    }

    fn column_into_vec(column: NarrowOffsets) -> (stored: Vec<i32>) {
        narrow_into_inner(column)
    }
}

impl OffsetWidth for i64 {
    type Column = WideOffsets;

    open spec fn max_offset() -> int {
        i64::MAX as int
    }

    open spec fn max_entries() -> int {
        isize::MAX / 8
    }

    open spec fn value(self) -> int {
        self as int
    }

    open spec fn entries(column: WideOffsets) -> Seq<int> {
        wide_entries(column).map_values(|offset: i64| offset as int)
    }

    proof fn limits() {
    }

    fn column_with_capacity(capacity: usize) -> (column: WideOffsets) {
        let column = wide_with_capacity(capacity);
        assert(Self::entries(column) =~= seq![0int]);
        column
    }

    fn column_len(column: &WideOffsets) -> (count: usize) {
        wide_len_proxy(column)
    }

    fn column_capacity(column: &WideOffsets) -> (capacity: usize) {
        wide_capacity(column)
    }

    fn column_reserve(column: &mut WideOffsets, additional: usize) {
        wide_reserve(column, additional)
    }

    fn column_last(column: &WideOffsets) -> (last: usize) {
        wide_last(column)
    }

    fn column_try_push(column: &mut WideOffsets, length: usize) -> (pushed: Result<
        (),
        BinaryError,
    >) {
        let last = wide_last(column);
        if last as u128 + length as u128 > i64::MAX as u128 {
            return Err(BinaryError::OffsetOverflow);
        }
        let pushed = match wide_try_push(column, length) {
            Ok(()) => Ok(()),
            Err(_) => Err(BinaryError::OffsetOverflow),
        };
        assert(Self::entries(*column) =~= Self::entries(*old(column)).push(
            Self::entries(*old(column)).last() + length,
        ));
        pushed
    }

    fn column_extend_constant(column: &mut WideOffsets, additional: usize) {
        wide_extend_constant(column, additional);
        assert(Self::entries(*column) =~= Self::entries(*old(column)) + Seq::new(
            additional as nat,
            |i: int| Self::entries(*old(column)).last(),
        ));
    }

    fn column_into_vec(column: WideOffsets) -> (stored: Vec<i64>) {
        wide_into_inner(column)
    }
}

} // verus!
