use merkle_light::default_algorithm::DefaultAlgorithm;
use merkle_light::digest::Digest64;
use merkle_light::hash::{Accumulator, Algorithm, AsBytes, Hashable};
use std::cmp::Ordering;
use std::collections::hash_map::DefaultHasher;
use std::hash::Hasher;

fn digest_of<V: Hashable<DefaultAlgorithm>>(v: &V) -> Digest64 {
    let mut h = DefaultAlgorithm::new();
    v.hash(&mut h);
    Algorithm::hash(&h)
}

#[test]
fn composite_value_golden_digest() {
    let person = (1u32, String::from("blah"), 2u64);
    let d = digest_of(&person);
    assert_eq!(d.as_bytes(), &16522193108841771551u64.to_be_bytes()[..]);
}

#[test]
fn equal_values_hash_alike() {
    let a = String::from("merkle");
    let mut b = String::with_capacity(64);
    b.push_str("mer");
    b.push_str("kle");
    assert_eq!(a, b);
    assert_eq!(digest_of(&a), digest_of(&b));
    assert_eq!(digest_of(&(7u64, a.clone())), digest_of(&(7u64, b.clone())));
}

#[test]
fn reset_matches_fresh_instance() {
    let mut h = DefaultAlgorithm::new();
    42u64.hash(&mut h);
    String::from("leaf").hash(&mut h);
    let before = Algorithm::hash(&h);
    h.reset();
    let fresh = DefaultAlgorithm::new();
    assert_eq!(Algorithm::hash(&h), Algorithm::hash(&fresh));
    assert_ne!(before, Algorithm::hash(&fresh));
    9u32.hash(&mut h);
    let mut other = DefaultAlgorithm::new();
    9u32.hash(&mut other);
    assert_eq!(Algorithm::hash(&h), Algorithm::hash(&other));
}

#[test]
fn reading_twice_gives_same_digest() {
    let mut h = DefaultAlgorithm::new();
    String::from("abc").hash(&mut h);
    let first = Algorithm::hash(&h);
    let second = Algorithm::hash(&h);
    assert_eq!(first, second);
    1u8.hash(&mut h);
    assert_ne!(first, Algorithm::hash(&h));
}

#[test]
fn reading_does_not_end_the_stream() {
    let mut h = DefaultAlgorithm::new();
    1u32.hash(&mut h);
    let _ = Algorithm::hash(&h);
    2u32.hash(&mut h);
    let mut straight = DefaultAlgorithm::new();
    1u32.hash(&mut straight);
    2u32.hash(&mut straight);
    assert_eq!(Algorithm::hash(&h), Algorithm::hash(&straight));
}

#[test]
fn slice_hash_matches_elementwise() {
    let items: Vec<u32> = vec![3, 1, 4, 1, 5];
    let mut by_slice = DefaultAlgorithm::new();
    u32::hash_slice(&items, &mut by_slice);
    let mut by_element = DefaultAlgorithm::new();
    for item in &items {
        item.hash(&mut by_element);
    }
    assert_eq!(Algorithm::hash(&by_slice), Algorithm::hash(&by_element));
    assert_eq!(digest_of(&items), Algorithm::hash(&by_element));
}

#[test]
fn empty_slice_writes_nothing() {
    let empty: Vec<u64> = Vec::new();
    let mut h = DefaultAlgorithm::new();
    u64::hash_slice(&empty, &mut h);
    assert_eq!(Algorithm::hash(&h), Algorithm::hash(&DefaultAlgorithm::new()));
}

#[test]
fn unwritten_algorithm_gives_empty_input_digest() {
    let h = DefaultAlgorithm::new();
    let expected = DefaultHasher::new().finish();
    assert_eq!(Algorithm::hash(&h), Digest64::from_u64(expected));
}

#[test]
fn byte_view_is_stable() {
    let d = digest_of(&String::from("node"));
    let first: Vec<u8> = d.as_bytes().to_vec();
    let second: Vec<u8> = d.as_bytes().to_vec();
    assert_eq!(first, second);
    assert_eq!(first.len(), 8);
}

#[test]
fn integers_are_written_little_endian() {
    let mut by_value = DefaultAlgorithm::new();
    0x0102_0304u32.hash(&mut by_value);
    let mut by_bytes = DefaultAlgorithm::new();
    by_bytes.write(&[4, 3, 2, 1]);
    assert_eq!(Algorithm::hash(&by_value), Algorithm::hash(&by_bytes));

    let mut wide = DefaultAlgorithm::new();
    0x0102u16.hash(&mut wide);
    let mut wide_bytes = DefaultAlgorithm::new();
    wide_bytes.write(&[2, 1]);
    assert_eq!(Algorithm::hash(&wide), Algorithm::hash(&wide_bytes));
}

#[test]
fn string_is_written_with_terminator() {
    let mut by_value = DefaultAlgorithm::new();
    String::from("hi").hash(&mut by_value);
    let mut by_bytes = DefaultAlgorithm::new();
    by_bytes.write(b"hi");
    by_bytes.write(&[0xff]);
    assert_eq!(Algorithm::hash(&by_value), Algorithm::hash(&by_bytes));
}

#[test]
fn string_boundaries_are_kept() {
    let left = (String::from("ab"), String::from("c"));
    let right = (String::from("a"), String::from("bc"));
    assert_ne!(digest_of(&left), digest_of(&right));
}

#[test]
fn field_order_matters() {
    assert_ne!(digest_of(&(1u64, 2u64)), digest_of(&(2u64, 1u64)));
}

#[test]
fn digest_bytes_are_big_endian() {
    let d = Digest64::from_u64(0x0102_0304_0506_0708);
    assert_eq!(d.as_bytes(), &[1, 2, 3, 4, 5, 6, 7, 8][..]);
    assert_eq!(Digest64::from_u64(0).as_bytes(), &[0u8; 8][..]);
    assert_eq!(Digest64::from_u64(u64::MAX).as_bytes(), &[0xffu8; 8][..]);
}

#[test]
fn digest_order_follows_value() {
    let small = Digest64::from_u64(255);
    let middle = Digest64::from_u64(256);
    let large = Digest64::from_u64(u64::MAX);
    assert_eq!(small.partial_cmp(&middle), Some(Ordering::Less));
    assert_eq!(middle.partial_cmp(&small), Some(Ordering::Greater));
    assert_eq!(middle.partial_cmp(&large), Some(Ordering::Less));
    assert_eq!(small.partial_cmp(&large), Some(Ordering::Less));
    assert_eq!(small.partial_cmp(&small), Some(Ordering::Equal));
    assert_eq!(small.cmp(&middle), Ordering::Less);
    let mut sorted = vec![large, small, middle];
    sorted.sort();
    assert_eq!(sorted, vec![small, middle, large]);
}

#[test]
fn digest_order_agrees_with_derived_cmp() {
    let values: [u64; 6] = [0, 1, 255, 256, 1 << 40, u64::MAX];
    for a in values {
        for b in values {
            let da = Digest64::from_u64(a);
            let db = Digest64::from_u64(b);
            assert_eq!(da.partial_cmp(&db), Some(a.cmp(&b)));
            assert_eq!(da.cmp(&db), a.cmp(&b));
            assert_eq!(da == db, a == b);
        }
    }
}

#[test]
fn str_and_string_hash_alike() {
    let mut from_str = DefaultAlgorithm::new();
    Hashable::hash("blah", &mut from_str);
    let mut from_string = DefaultAlgorithm::new();
    String::from("blah").hash(&mut from_string);
    assert_eq!(Algorithm::hash(&from_str), Algorithm::hash(&from_string));
    let mut from_empty = DefaultAlgorithm::new();
    Hashable::hash("", &mut from_empty);
    let mut terminator_only = DefaultAlgorithm::new();
    terminator_only.write(&[]);
    terminator_only.write(&[0xff]);
    assert_eq!(Algorithm::hash(&from_empty), Algorithm::hash(&terminator_only));
}
