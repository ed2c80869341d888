//! The offsets columns of `polars_arrow`, and what this crate relies on of
//! them.
//!
//! Nothing in this file is proved. Each function makes one call into
//! `polars_arrow::offset::Offsets` and states, over the entries of the column,
//! what that call does. A call is kept from the arguments on which it would
//! panic; as in the contracts that vstd gives `Vec`, nothing is said of the
//! memory that the allocator has left.

use polars_arrow::offset::Offsets;
use polars_arrow::types::Index;
use polars_error::PolarsError;
use vstd::prelude::*;

verus! {

/// `polars_error::PolarsError`, the error of `Offsets::try_push`. Nothing is
/// known of its values.
#[verifier::external_type_specification]
#[verifier::external_body]
pub struct ExPolarsError(PolarsError);

/// An `Offsets<i32>`. The type itself cannot be declared, because it is
/// bounded by a trait of `polars_arrow`, so the column is held out of sight
/// and [`narrow_entries`] stands for what it holds.
#[verifier::external_body]
#[derive(Debug)]
pub struct NarrowOffsets {
    inner: Offsets<i32>,
}

/// An `Offsets<i64>`, held like [`NarrowOffsets`]; [`wide_entries`] stands
/// for what it holds.
#[verifier::external_body]
#[derive(Debug)]
pub struct WideOffsets {
    inner: Offsets<i64>,
}

/// The entries of a 32-bit offsets column, first to last.
pub uninterp spec fn narrow_entries(offsets: NarrowOffsets) -> Seq<i32>;

/// The entries of a 64-bit offsets column, first to last.
pub uninterp spec fn wide_entries(offsets: WideOffsets) -> Seq<i64>;

/// `Offsets::<i32>::with_capacity`: a column whose only entry is zero. The
/// call allocates room for `capacity + 1` entries, which must fit an
/// allocation.
#[verifier::external_body]
pub(crate) fn narrow_with_capacity(capacity: usize) -> (offsets: NarrowOffsets)
    requires
        (capacity + 1) * 4 <= isize::MAX,
    ensures
        narrow_entries(offsets) == seq![0i32],
{
    NarrowOffsets { inner: Offsets::with_capacity(capacity) }
}

/// `Offsets::<i32>::len_proxy`: the number of entries less one. A column
/// always holds at least one entry.
#[verifier::external_body]
pub(crate) fn narrow_len_proxy(offsets: &NarrowOffsets) -> (count: usize)
    ensures
        count + 1 == narrow_entries(*offsets).len(),
{
    offsets.inner.len_proxy()
}

/// `Offsets::<i32>::capacity`: the entries the column has room for beyond the
/// first. The number depends on the allocator; whatever it gave, the column
/// has room for the entries it holds.
#[verifier::external_body]
pub(crate) fn narrow_capacity(offsets: &NarrowOffsets) -> (capacity: usize)
    ensures
        capacity + 1 >= narrow_entries(*offsets).len(),
{
    offsets.inner.capacity()
}

/// `Offsets::<i32>::reserve`: makes room for `additional` more entries and
/// leaves the entries as they are. The entries and the room asked for must
/// fit an allocation.
#[verifier::external_body]
pub(crate) fn narrow_reserve(offsets: &mut NarrowOffsets, additional: usize)
    requires
        (narrow_entries(*old(offsets)).len() + additional) * 4 <= isize::MAX,
    ensures
        narrow_entries(*final(offsets)) == narrow_entries(*old(offsets)),
{
    offsets.inner.reserve(additional)
}

/// `Offsets::<i32>::last` and `Index::to_usize` on it: the last entry, which
/// is not negative, as a `usize`.
#[verifier::external_body]
pub(crate) fn narrow_last(offsets: &NarrowOffsets) -> (last: usize)
    requires
        narrow_entries(*offsets).len() > 0,
        narrow_entries(*offsets).last() >= 0,
    ensures
        last == narrow_entries(*offsets).last(),
{
    offsets.inner.last().to_usize()
}

/// `Offsets::<i32>::try_push`: appends the last entry plus `length` where
/// that sum fits an `i32`; otherwise returns an error and leaves the column
/// as it is. The entries and the new one must fit an allocation.
#[verifier::external_body]
pub(crate) fn narrow_try_push(offsets: &mut NarrowOffsets, length: usize) -> (pushed: Result<
    (),
    PolarsError,
>)
    requires
        narrow_entries(*old(offsets)).len() > 0,
        narrow_entries(*old(offsets)).last() >= 0,
        (narrow_entries(*old(offsets)).len() + 1) * 4 <= isize::MAX,
    ensures
        narrow_entries(*old(offsets)).last() + length <= i32::MAX ==> pushed is Ok
            && narrow_entries(*final(offsets)) == narrow_entries(*old(offsets)).push(
            (narrow_entries(*old(offsets)).last() + length) as i32,
        ),
        narrow_entries(*old(offsets)).last() + length > i32::MAX ==> pushed is Err
            && narrow_entries(*final(offsets)) == narrow_entries(*old(offsets)),
{
    offsets.inner.try_push(length)
}

/// `Offsets::<i32>::extend_constant`: appends `additional` copies of the last
/// entry. The entries before and after must fit an allocation.
#[verifier::external_body]
pub(crate) fn narrow_extend_constant(offsets: &mut NarrowOffsets, additional: usize)
    requires
        narrow_entries(*old(offsets)).len() > 0,
        (narrow_entries(*old(offsets)).len() + additional) * 4 <= isize::MAX,
    ensures
        narrow_entries(*final(offsets)) == narrow_entries(*old(offsets)) + Seq::new(
            additional as nat,
            |i: int| narrow_entries(*old(offsets)).last(),
        ),
{
    offsets.inner.extend_constant(additional)
}

/// `Offsets::<i32>::into_inner`: the entries as a vector.
#[verifier::external_body]
pub(crate) fn narrow_into_inner(offsets: NarrowOffsets) -> (entries: Vec<i32>)
    ensures
        entries@ == narrow_entries(offsets),
{
    offsets.inner.into_inner()
}

/// `Offsets::<i64>::with_capacity`: a column whose only entry is zero. The
/// call allocates room for `capacity + 1` entries, which must fit an
/// allocation.
#[verifier::external_body]
pub(crate) fn wide_with_capacity(capacity: usize) -> (offsets: WideOffsets)
    requires
        (capacity + 1) * 8 <= isize::MAX,
    ensures
        wide_entries(offsets) == seq![0i64],
{
    WideOffsets { inner: Offsets::with_capacity(capacity) }
}

/// `Offsets::<i64>::len_proxy`: the number of entries less one. A column
/// always holds at least one entry.
#[verifier::external_body]
pub(crate) fn wide_len_proxy(offsets: &WideOffsets) -> (count: usize)
    ensures
        count + 1 == wide_entries(*offsets).len(),
{
    offsets.inner.len_proxy()
}

/// `Offsets::<i64>::capacity`: the entries the column has room for beyond the
/// first. The number depends on the allocator; whatever it gave, the column
/// has room for the entries it holds.
#[verifier::external_body]
pub(crate) fn wide_capacity(offsets: &WideOffsets) -> (capacity: usize)
    ensures
        capacity + 1 >= wide_entries(*offsets).len(),
{
    offsets.inner.capacity()
}

/// `Offsets::<i64>::reserve`: makes room for `additional` more entries and
/// leaves the entries as they are. The entries and the room asked for must
/// fit an allocation.
#[verifier::external_body]
pub(crate) fn wide_reserve(offsets: &mut WideOffsets, additional: usize)
    requires
        (wide_entries(*old(offsets)).len() + additional) * 8 <= isize::MAX,
    ensures
        wide_entries(*final(offsets)) == wide_entries(*old(offsets)),
{
    offsets.inner.reserve(additional)
}

/// `Offsets::<i64>::last` and `Index::to_usize` on it: the last entry, which
/// is not negative and fits a `usize`, as a `usize`.
#[verifier::external_body]
pub(crate) fn wide_last(offsets: &WideOffsets) -> (last: usize)
    requires
        wide_entries(*offsets).len() > 0,
        0 <= wide_entries(*offsets).last() <= usize::MAX,
    ensures
        last == wide_entries(*offsets).last(),
{
    offsets.inner.last().to_usize()
}

/// `Offsets::<i64>::try_push`: appends the last entry plus `length`. For this
/// width the call adds without a check, so the sum must fit an `i64`; it then
/// always succeeds. The entries and the new one must fit an allocation.
#[verifier::external_body]
pub(crate) fn wide_try_push(offsets: &mut WideOffsets, length: usize) -> (pushed: Result<
    (),
    PolarsError,
>)
    requires
        wide_entries(*old(offsets)).len() > 0,
        wide_entries(*old(offsets)).last() >= 0,
        (wide_entries(*old(offsets)).len() + 1) * 8 <= isize::MAX,
        wide_entries(*old(offsets)).last() + length <= i64::MAX,
    ensures
        pushed is Ok,
        wide_entries(*final(offsets)) == wide_entries(*old(offsets)).push(
            (wide_entries(*old(offsets)).last() + length) as i64,
        ),
{
    offsets.inner.try_push(length)
}

/// `Offsets::<i64>::extend_constant`: appends `additional` copies of the last
/// entry. The entries before and after must fit an allocation.
#[verifier::external_body]
pub(crate) fn wide_extend_constant(offsets: &mut WideOffsets, additional: usize)
    requires
        wide_entries(*old(offsets)).len() > 0,
        (wide_entries(*old(offsets)).len() + additional) * 8 <= isize::MAX,
    ensures
        wide_entries(*final(offsets)) == wide_entries(*old(offsets)) + Seq::new(
            additional as nat,
            |i: int| wide_entries(*old(offsets)).last(),
        ),
{
    offsets.inner.extend_constant(additional)
}

/// `Offsets::<i64>::into_inner`: the entries as a vector.
#[verifier::external_body]
pub(crate) fn wide_into_inner(offsets: WideOffsets) -> (entries: Vec<i64>)
    ensures
        entries@ == wide_entries(offsets),
{
    offsets.inner.into_inner()
}

} // verus!
