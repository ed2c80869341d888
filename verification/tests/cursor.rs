use parquet_binary::Binary;
use parquet_binary::BinaryError;
use parquet_binary::BinaryIter;

fn framed(values: &[&[u8]]) -> Vec<u8> {
    let mut raw = Vec::new();
    for value in values {
        raw.extend_from_slice(&(value.len() as u32).to_le_bytes());
        raw.extend_from_slice(value);
    }
    raw
}

#[test]
fn cursor_hands_out_each_value_once() {
    let raw: Vec<u8> = vec![
        2, 0, 0, 0, b'a', b'b', 0, 0, 0, 0, 3, 0, 0, 0, b'x', b'y', b'z',
    ];
    let mut iter = BinaryIter::new(&raw, 3);
    assert_eq!(iter.len_when_not_nullable(), 3);
    assert_eq!(iter.next(), Some(Ok(&b"ab"[..])));
    assert_eq!(iter.len_when_not_nullable(), 2);
    assert_eq!(iter.next(), Some(Ok(&b""[..])));
    assert_eq!(iter.len_when_not_nullable(), 1);
    assert_eq!(iter.next(), Some(Ok(&b"xyz"[..])));
    assert_eq!(iter.len_when_not_nullable(), 0);
    assert_eq!(iter.next(), None);
    assert_eq!(iter.len_when_not_nullable(), 0);
}

#[test]
fn cursor_moves_past_what_it_read() {
    let raw = framed(&[b"ab", b"", b"xyz"]);
    let mut iter = BinaryIter::new(&raw, 3);
    assert_eq!(iter.unread(), raw.as_slice());
    iter.next();
    assert_eq!(iter.unread(), &raw[6..]);
    iter.next();
    assert_eq!(iter.unread(), &raw[10..]);
    iter.next();
    assert!(iter.unread().is_empty());
}

#[test]
fn values_are_slices_of_the_buffer() {
    let raw = framed(&[b"abc"]);
    let mut iter = BinaryIter::new(&raw, 1);
    let value = iter.next().unwrap().unwrap();
    assert!(std::ptr::eq(value.as_ptr(), raw[4..].as_ptr()));
}

#[test]
fn empty_cursor_is_at_its_end() {
    let raw: Vec<u8> = Vec::new();
    let mut iter = BinaryIter::new(&raw, 0);
    assert_eq!(iter.next(), None);
    assert_eq!(iter.next(), None);
}

#[test]
fn size_hint_follows_remaining_count() {
    let raw = framed(&[b"a", b"b"]);
    let mut iter = BinaryIter::new(&raw, 2);
    assert_eq!(iter.size_hint(), (0, Some(2)));
    iter.next();
    assert_eq!(iter.size_hint(), (0, Some(1)));
    iter.next();
    assert_eq!(iter.size_hint(), (0, Some(0)));
}

#[test]
fn cursor_may_stop_before_the_count_is_used_up() {
    let raw = framed(&[b"only"]);
    let mut iter = BinaryIter::new(&raw, 5);
    assert_eq!(iter.next(), Some(Ok(&b"only"[..])));
    assert_eq!(iter.len_when_not_nullable(), 4);
    assert!(iter.unread().is_empty());
}

#[test]
fn value_shorter_than_announced_is_corrupt() {
    let raw: Vec<u8> = vec![5, 0, 0, 0, b'a', b'b'];
    let mut iter = BinaryIter::new(&raw, 1);
    assert_eq!(iter.next(), Some(Err(BinaryError::CorruptEncoding)));
    assert_eq!(iter.len_when_not_nullable(), 1);
    assert_eq!(iter.unread(), raw.as_slice());
}

#[test]
fn truncated_prefix_is_corrupt() {
    let raw: Vec<u8> = vec![1, 0, 0];
    let mut iter = BinaryIter::new(&raw, 1);
    assert_eq!(iter.next(), Some(Err(BinaryError::CorruptEncoding)));
    assert_eq!(iter.len_when_not_nullable(), 1);
    assert_eq!(iter.unread(), raw.as_slice());
}

#[test]
fn missing_record_is_corrupt() {
    let raw = framed(&[b"a"]);
    let mut iter = BinaryIter::new(&raw, 2);
    assert_eq!(iter.next(), Some(Ok(&b"a"[..])));
    assert_eq!(iter.next(), Some(Err(BinaryError::CorruptEncoding)));
    assert_eq!(iter.len_when_not_nullable(), 1);
}

#[test]
fn corrupt_record_after_good_ones() {
    let mut raw = framed(&[b"good"]);
    raw.extend_from_slice(&[0xff, 0xff, 0xff, 0xff, 1, 2, 3]);
    let mut iter = BinaryIter::new(&raw, 2);
    assert_eq!(iter.next(), Some(Ok(&b"good"[..])));
    assert_eq!(iter.next(), Some(Err(BinaryError::CorruptEncoding)));
    assert_eq!(iter.unread(), &raw[8..]);
}

#[test]
fn long_value_uses_all_prefix_bytes() {
    let value = vec![9u8; 0x1_02_03];
    let raw = framed(&[&value]);
    assert_eq!(&raw[..4], &[0x03, 0x02, 0x01, 0x00]);
    let mut iter = BinaryIter::new(&raw, 1);
    assert_eq!(iter.next(), Some(Ok(value.as_slice())));
    assert_eq!(iter.next(), None);
}

#[test]
fn framed_values_round_trip_through_a_builder() {
    let values: Vec<&[u8]> = vec![b"ab", b"", b"xyz", b"\x00\x01", b"longer value"];
    let raw = framed(&values);
    let mut iter = BinaryIter::new(&raw, values.len());
    let mut binary = Binary::<i32>::with_capacity(values.len());
    while let Some(item) = iter.next() {
        binary.push(item.unwrap()).unwrap();
    }
    assert!(iter.unread().is_empty());
    assert_eq!(binary.len(), values.len());
    let (offsets, bytes) = binary.into_parts();
    let read: Vec<&[u8]> = offsets
        .windows(2)
        .map(|pair| &bytes[pair[0] as usize..pair[1] as usize])
        .collect();
    assert_eq!(read, values);
}

#[test]
fn nulls_are_padded_between_read_values() {
    let raw = framed(&[b"a", b"bc"]);
    let valid = [true, false, false, true];
    let mut iter = BinaryIter::new(&raw, valid.len());
    let mut binary = Binary::<i64>::with_capacity(valid.len());
    for present in valid {
        if present {
            binary.push(iter.next().unwrap().unwrap()).unwrap();
        } else {
            binary.push_null();
        }
    }
    assert!(iter.unread().is_empty());
    let (offsets, bytes) = binary.into_parts();
    assert_eq!(offsets, vec![0i64, 1, 1, 1, 3]);
    assert_eq!(bytes, b"abc".to_vec());
}
