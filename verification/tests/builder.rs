use parquet_binary::Binary;
use parquet_binary::BinaryError;

#[test]
fn new_builder_is_empty() {
    let binary = Binary::<i32>::with_capacity(16);
    assert_eq!(binary.len(), 0);
    assert!(binary.values().is_empty());
    let (offsets, values) = binary.into_parts();
    assert_eq!(offsets, vec![0]);
    assert!(values.is_empty());
}

#[test]
fn default_builder_is_empty() {
    let binary = Binary::<i64>::default();
    assert_eq!(binary.len(), 0);
    let (offsets, values) = binary.into_parts();
    assert_eq!(offsets, vec![0i64]);
    assert!(values.is_empty());
}

#[test]
fn push_appends_bytes_and_offsets() {
    let mut binary = Binary::<i32>::with_capacity(4);
    assert_eq!(binary.push(b"ab"), Ok(()));
    assert_eq!(binary.push(b""), Ok(()));
    assert_eq!(binary.push(b"xyz"), Ok(()));
    assert_eq!(binary.len(), 3);
    assert_eq!(binary.values().as_slice(), b"abxyz");
    let (offsets, values) = binary.into_parts();
    assert_eq!(offsets, vec![0, 2, 2, 5]);
    assert_eq!(values, b"abxyz".to_vec());
}

#[test]
fn push_with_wide_offsets() {
    let mut binary = Binary::<i64>::with_capacity(2);
    assert_eq!(binary.push(b"hello"), Ok(()));
    assert_eq!(binary.push(b"!"), Ok(()));
    assert_eq!(binary.len(), 2);
    let (offsets, values) = binary.into_parts();
    assert_eq!(offsets, vec![0i64, 5, 6]);
    assert_eq!(values, b"hello!".to_vec());
}

#[test]
fn push_beyond_announced_capacity() {
    let mut binary = Binary::<i32>::with_capacity(0);
    for i in 0..10u8 {
        assert_eq!(binary.push(&[i]), Ok(()));
    }
    assert_eq!(binary.len(), 10);
    let (offsets, values) = binary.into_parts();
    assert_eq!(offsets, (0..=10).collect::<Vec<i32>>());
    assert_eq!(values, (0..10u8).collect::<Vec<u8>>());
}

#[test]
fn offsets_bound_each_value() {
    let pushed: Vec<&[u8]> = vec![b"one", b"", b"three", b"4", b""];
    let mut binary = Binary::<i32>::with_capacity(pushed.len());
    for value in &pushed {
        binary.push(value).unwrap();
    }
    let (offsets, values) = binary.into_parts();
    assert_eq!(offsets.len(), pushed.len() + 1);
    assert_eq!(offsets[0], 0);
    assert_eq!(*offsets.last().unwrap() as usize, values.len());
    for i in 0..pushed.len() {
        assert!(offsets[i] <= offsets[i + 1]);
        assert_eq!((offsets[i + 1] - offsets[i]) as usize, pushed[i].len());
        assert_eq!(&values[offsets[i] as usize..offsets[i + 1] as usize], pushed[i]);
    }
}

#[test]
fn extend_constant_repeats_last_offset() {
    let mut binary = Binary::<i32>::with_capacity(8);
    binary.push(b"abc").unwrap();
    binary.extend_constant(3);
    assert_eq!(binary.len(), 4);
    assert_eq!(binary.values().as_slice(), b"abc");
    let (offsets, values) = binary.into_parts();
    assert_eq!(offsets, vec![0, 3, 3, 3, 3]);
    assert_eq!(values, b"abc".to_vec());
}

#[test]
fn extend_constant_by_one_and_by_none() {
    let mut binary = Binary::<i64>::with_capacity(8);
    binary.push(b"ab").unwrap();
    binary.extend_constant(0);
    assert_eq!(binary.len(), 1);
    binary.extend_constant(1);
    assert_eq!(binary.len(), 2);
    binary.push(b"c").unwrap();
    let (offsets, values) = binary.into_parts();
    assert_eq!(offsets, vec![0i64, 2, 2, 3]);
    assert_eq!(values, b"abc".to_vec());
}

#[test]
fn extend_constant_on_empty_builder() {
    let mut binary = Binary::<i32>::with_capacity(2);
    binary.extend_constant(2);
    assert_eq!(binary.len(), 2);
    let (offsets, values) = binary.into_parts();
    assert_eq!(offsets, vec![0, 0, 0]);
    assert!(values.is_empty());
}

#[test]
fn push_null_is_an_empty_value() {
    let mut binary = Binary::<i32>::with_capacity(2);
    binary.push(b"a").unwrap();
    binary.push_null();
    binary.push(b"b").unwrap();
    assert_eq!(binary.len(), 3);
    let (offsets, values) = binary.into_parts();
    assert_eq!(offsets, vec![0, 1, 1, 2]);
    assert_eq!(values, b"ab".to_vec());
}

#[test]
fn extend_constant_value_of_empty() {
    let mut binary = Binary::<i32>::with_capacity(2);
    binary.push(b"zz").unwrap();
    binary.extend_constant_value(2, b"");
    assert_eq!(binary.len(), 3);
    let (offsets, values) = binary.into_parts();
    assert_eq!(offsets, vec![0, 2, 2, 2]);
    assert_eq!(values, b"zz".to_vec());
}

#[test]
fn extend_null_constant_adds_empty_values() {
    let mut binary = Binary::<i64>::with_capacity(2);
    binary.extend_null_constant(2);
    binary.push(b"q").unwrap();
    assert_eq!(binary.len(), 3);
    let (offsets, values) = binary.into_parts();
    assert_eq!(offsets, vec![0i64, 0, 0, 1]);
    assert_eq!(values, b"q".to_vec());
}

#[test]
fn reserve_keeps_contents() {
    let mut binary = Binary::<i32>::with_capacity(1);
    binary.push(b"abc").unwrap();
    binary.reserve(1000);
    assert!(binary.values().capacity() >= 3 + 1000);
    assert_eq!(binary.len(), 1);
    let (offsets, values) = binary.into_parts();
    assert_eq!(offsets, vec![0, 3]);
    assert_eq!(values, b"abc".to_vec());
}

#[test]
fn reserve_on_empty_builder_assumes_no_bytes() {
    let mut binary = Binary::<i64>::with_capacity(0);
    binary.reserve(10);
    assert_eq!(binary.len(), 0);
    assert!(binary.values().is_empty());
    binary.push(b"x").unwrap();
    let (offsets, _) = binary.into_parts();
    assert_eq!(offsets, vec![0i64, 1]);
}

#[test]
fn first_guess_caps_at_hundred_values() {
    let small = Binary::<i32>::with_capacity(10);
    assert!(small.values().capacity() >= 240);
    let large = Binary::<i32>::with_capacity(100_000);
    assert!(large.values().capacity() >= 2400);
    assert!(large.values().capacity() < 100_000 * 24);
}

#[test]
fn push_recalibrates_with_the_last_value_of_the_sample() {
    let mut binary = Binary::<i32>::with_capacity(1000);
    let value = [7u8; 10];
    for _ in 0..99 {
        binary.push(&value).unwrap();
    }
    assert!(binary.values().capacity() < (1000 / 100 + 1) * 1000);
    binary.push(&value).unwrap();
    assert_eq!(binary.len(), 100);
    assert_eq!(binary.values().len(), 1000);
    assert!(binary.values().capacity() >= (1000 / 100 + 1) * 1000);
}

#[test]
fn push_recalibrates_with_wide_offsets() {
    let mut binary = Binary::<i64>::with_capacity(1000);
    let value = [7u8; 10];
    for _ in 0..100 {
        binary.push(&value).unwrap();
    }
    assert!(binary.values().capacity() >= 11000);
    let (offsets, values) = binary.into_parts();
    assert_eq!(offsets.len(), 101);
    assert_eq!(offsets[100], 1000);
    assert_eq!(values.len(), 1000);
}

#[test]
fn push_recalibrates_only_once() {
    let mut binary = Binary::<i32>::with_capacity(200);
    let value = [3u8; 50];
    for _ in 0..100 {
        binary.push(&value).unwrap();
    }
    let after_sample = binary.values().capacity();
    assert!(after_sample >= (5000 / 100 + 1) * 200);
    for _ in 0..100 {
        binary.push(&value).unwrap();
    }
    assert_eq!(binary.len(), 200);
    assert_eq!(binary.values().len(), 10000);
    assert_eq!(binary.values().capacity(), after_sample);
}

#[test]
fn push_does_not_recalibrate_for_small_announcements() {
    let mut binary = Binary::<i64>::with_capacity(100);
    let value = [1u8; 10];
    for _ in 0..101 {
        binary.push(&value).unwrap();
    }
    assert_eq!(binary.len(), 101);
    assert!(binary.values().capacity() < 11 * 1000);
}

#[test]
fn push_reports_offset_overflow() {
    let huge = vec![0u8; (i32::MAX as usize) + 1];
    let mut binary = Binary::<i32>::with_capacity(2);
    binary.push(b"ab").unwrap();
    assert_eq!(binary.push(&huge), Err(BinaryError::OffsetOverflow));
    assert_eq!(binary.len(), 1);
    assert_eq!(binary.values().as_slice(), b"ab");
    assert_eq!(binary.push(b"c"), Ok(()));
    let (offsets, values) = binary.into_parts();
    assert_eq!(offsets, vec![0, 2, 3]);
    assert_eq!(values, b"abc".to_vec());
}

#[test]
fn push_reports_overflow_of_the_sum() {
    let almost = vec![0u8; i32::MAX as usize];
    let mut binary = Binary::<i32>::with_capacity(2);
    binary.push(b"a").unwrap();
    assert_eq!(binary.push(&almost), Err(BinaryError::OffsetOverflow));
    let (offsets, values) = binary.into_parts();
    assert_eq!(offsets, vec![0, 1]);
    assert_eq!(values, b"a".to_vec());
}
