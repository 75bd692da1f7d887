use firn::db::write_log::{pack, unpack, unpack_body};

#[test]
fn pack_correctly() {
    let entity = "Hello";
    let attribute = "world";
    let value = "!";

    let packed = pack(&entity, &attribute, &value);
    let (e, a, v) = unpack(&packed).unwrap();

    assert_eq!(e, entity);
    assert_eq!(a, attribute);
    assert_eq!(v, value);
}

#[test]
fn packed_layout() {
    assert_eq!(pack("ab", "c", "xyz"), vec![2, 1, b'a', b'b', b'c', b'x', b'y', b'z']);
    assert_eq!(pack("", "", ""), vec![0, 0]);
    // Lengths count bytes, not characters.
    assert_eq!(pack("ä", "", ""), vec![2, 0, 0xC3, 0xA4]);
}

#[test]
fn long_lengths_take_several_bytes() {
    let entity = "e".repeat(300);
    let packed = pack(&entity, "a", "v");
    // 300 = 0b10_0101100: low seven bits with the continuation bit, then 2.
    assert_eq!(&packed[..3], &[0xAC, 0x02, 1]);
    assert_eq!(packed.len(), 3 + 300 + 1 + 1);
    let (e, a, v) = unpack(&packed).unwrap();
    assert_eq!(e, entity);
    assert_eq!(a, "a");
    assert_eq!(v, "v");
}

#[test]
fn unpack_refuses_what_is_not_packed() {
    // No length at all, and a length that never ends.
    assert_eq!(unpack(&[]), None);
    assert_eq!(unpack(&[0x80]), None);
    assert_eq!(unpack(&[1]), None);
    // A length that does not fit 64 bits.
    assert_eq!(unpack(&[0xFF, 0xFF, 0xFF, 0xFF, 0xFF, 0xFF, 0xFF, 0xFF, 0xFF, 0x02, 0]), None);
    // A body shorter than the lengths ask.
    assert_eq!(unpack(&[2, 1, b'a', b'b']), None);
    // A part that is not UTF-8.
    assert_eq!(unpack(&[1, 0, 0xFF]), None);
    // A character split between entity and attribute.
    assert_eq!(unpack(&[1, 1, 0xC3, 0xA4]), None);
}

#[test]
fn unpack_reads_any_encoding_of_a_length() {
    // Zero written with a needless continuation byte.
    assert_eq!(
        unpack(&[0x80, 0x00, 0, b'v']),
        Some((String::new(), String::new(), "v".to_string()))
    );
}

#[test]
fn unpack_body_by_lengths() {
    assert_eq!(
        unpack_body(b"abcxyz", 2, 1),
        Some(("ab".to_string(), "c".to_string(), "xyz".to_string()))
    );
    assert_eq!(unpack_body(b"abc", 3, 0), Some(("abc".to_string(), String::new(), String::new())));
    assert_eq!(unpack_body(b"abc", 3, 1), None);
    assert_eq!(unpack_body(b"abc", u64::MAX, 1), None);
    assert_eq!(unpack_body(b"abc", 1, u64::MAX), None);
}
