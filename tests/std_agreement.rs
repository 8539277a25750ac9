use merkle_light::default_algorithm::DefaultAlgorithm;
use merkle_light::digest::Digest64;
use merkle_light::hash::{Algorithm, Hashable};
use std::collections::hash_map::DefaultHasher;
use std::hash::{Hash, Hasher};

#[test]
fn composite_value_matches_std_hash() {
    let mut std_hasher = DefaultHasher::new();
    Hash::hash(&1u32, &mut std_hasher);
    Hash::hash("blah", &mut std_hasher);
    Hash::hash(&2u64, &mut std_hasher);
    let expected = std_hasher.finish();

    let person = (1u32, String::from("blah"), 2u64);
    let mut h = DefaultAlgorithm::new();
    Hashable::hash(&person, &mut h);
    assert_eq!(Algorithm::hash(&h), Digest64::from_u64(expected));
}
