//! How much memory a builder asks for, and when.
//!
//! A builder is created from a hint of how many values it will hold. It first
//! guesses the bytes per value. When it is handed the value that completes a
//! sample of [`SAMPLE_SIZE`] values it replaces the guess, one time, by what
//! it has observed.

use vstd::prelude::*;

verus! {

/// Bytes assumed per value before any value has been seen.
pub const INITIAL_BYTES_PER_VALUE: usize = 24;

/// The first guess is never scaled by more values than this, however many
/// were announced.
pub const INITIAL_VALUES_CAP: usize = 100;

/// The number of values that make the sample. The size estimate is
/// recalibrated by the push that is handed the last value of the sample,
/// before that value is appended, and at no other time.
pub const SAMPLE_SIZE: usize = 100;

/// The bytes to set aside for values when `capacity` values are announced.
pub open spec fn spec_initial_value_bytes(capacity: int) -> int {
    if capacity < INITIAL_VALUES_CAP {
        capacity * INITIAL_BYTES_PER_VALUE
    } else {
        INITIAL_VALUES_CAP * INITIAL_BYTES_PER_VALUE
    }
}

/// The bytes that all announced values are projected to take, from the
/// `sampled_bytes` of the sample: one more than the sample's bytes per value,
/// rounded down, for each of the `offsets_capacity` values there is room for.
pub open spec fn spec_projected_bytes(offsets_capacity: int, sampled_bytes: int) -> int {
    (sampled_bytes / (SAMPLE_SIZE as int) + 1) * offsets_capacity
}

/// Whether a push recalibrates: with the value at hand the builder has seen
/// exactly the sample, more values than the sample were announced, and the
/// projection exceeds the bytes set aside so far while still fitting a
/// buffer.
pub open spec fn spec_recalibrates(
    sampled: int,
    offsets_capacity: int,
    sampled_bytes: int,
    values_capacity: int,
) -> bool {
    &&& sampled == SAMPLE_SIZE
    &&& offsets_capacity > SAMPLE_SIZE
    &&& values_capacity < spec_projected_bytes(offsets_capacity, sampled_bytes) <= isize::MAX
}

/// The bytes by which the projection exceeds the bytes set aside so far;
/// zero where the push does not recalibrate.
pub open spec fn spec_shortfall(
    sampled: int,
    offsets_capacity: int,
    sampled_bytes: int,
    values_capacity: int,
) -> int {
    if spec_recalibrates(sampled, offsets_capacity, sampled_bytes, values_capacity) {
        spec_projected_bytes(offsets_capacity, sampled_bytes) - values_capacity
    } else {
        0
    }
}

/// Bytes per value that a reservation for further values assumes: the bytes
/// held, divided by the last offset or by one if that is zero.
pub open spec fn spec_average_value_bytes(values_len: int, last_offset: int) -> int {
    if last_offset < 1 {
        values_len
    } else {
        values_len / last_offset
    }
}

/// Computes [`spec_initial_value_bytes`].
pub fn initial_value_bytes(capacity: usize) -> (bytes: usize)
    ensures
        bytes == spec_initial_value_bytes(capacity as int),
{
    let scaled: usize = if capacity < INITIAL_VALUES_CAP {
        capacity
    } else {
        INITIAL_VALUES_CAP
    };
    scaled * INITIAL_BYTES_PER_VALUE
}

/// Computes [`spec_shortfall`] for a builder that, with the value at hand,
/// has seen `sampled` values of `sampled_bytes` bytes in all, has room for
/// `offsets_capacity` values and has set aside `values_capacity` bytes.
pub fn shortfall(
    sampled: usize,
    offsets_capacity: usize,
    sampled_bytes: usize,
    values_capacity: usize,
) -> (missing: usize)
    ensures
        missing == spec_shortfall(
            sampled as int,
            offsets_capacity as int,
            sampled_bytes as int,
            values_capacity as int,
        ),
{
    if sampled != SAMPLE_SIZE || offsets_capacity <= SAMPLE_SIZE {
        return 0;
    }
    let bytes_per_value: usize = sampled_bytes / SAMPLE_SIZE + 1;
    match bytes_per_value.checked_mul(offsets_capacity) {
        Some(projected) => {
            if projected > values_capacity && projected <= isize::MAX as usize {
                projected - values_capacity
            } else {
                0
            }
        },
        None => 0,
    }
}

/// Computes [`spec_average_value_bytes`].
pub fn average_value_bytes(values_len: usize, last_offset: usize) -> (average: usize)
    ensures
        average == spec_average_value_bytes(values_len as int, last_offset as int),
{
    if last_offset < 1 {
        values_len
    } else {
        values_len / last_offset
    }
}

} // verus!
