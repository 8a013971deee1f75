use std::collections::hash_map::DefaultHasher;
use std::hash::Hash;
use std::hash::Hasher;

use sso::Storage;
use sso::CAPACITY;

#[test]
fn capacity_is_fifteen() {
    assert_eq!(CAPACITY, 15);
}

#[test]
fn round_trip_empty() {
    let storage = Storage::from_str("").unwrap();
    assert_eq!(storage.as_str(), "");
    assert!(storage.is_inline());
}

#[test]
fn round_trip_boundary_inline() {
    let s = "exactly15bytes!";
    assert_eq!(s.len(), 15);
    let storage = Storage::from_str(s).unwrap();
    assert!(storage.is_inline());
    assert_eq!(storage.as_str(), s);
}

#[test]
fn round_trip_boundary_heap() {
    let s = "exactly16bytes!!";
    assert_eq!(s.len(), 16);
    let storage = Storage::from_str(s).unwrap();
    assert!(storage.is_heap());
    assert_eq!(storage.as_str(), s);
}

#[test]
fn round_trip_multibyte() {
    let short = "héllo ∞";
    assert!(short.len() <= 15);
    let storage = Storage::from_str(short).unwrap();
    assert!(storage.is_inline());
    assert_eq!(storage.as_str(), short);

    let long = "größer als fünfzehn Bytes — weit größer";
    assert!(long.len() > 15);
    let storage = Storage::from_str(long).unwrap();
    assert!(storage.is_heap());
    assert_eq!(storage.as_str(), long);
}

#[test]
fn round_trip_long() {
    let s = "a much longer string that certainly does not fit in fifteen bytes";
    let storage = Storage::from_str(s).unwrap();
    assert!(storage.is_heap());
    assert_eq!(storage.as_str(), s);
}

#[test]
fn rejection_reports_first_nul_position() {
    let err = Storage::from_str("a\0b").unwrap_err();
    assert_eq!(err.nul_position, 1);

    let err = Storage::from_str("\0").unwrap_err();
    assert_eq!(err.nul_position, 0);

    let err = Storage::from_str("a long string with a late \0 in it").unwrap_err();
    assert_eq!(err.nul_position, 26);
}

#[test]
fn default_is_empty_inline() {
    let d = Storage::default();
    assert_eq!(d.as_str(), "");
    assert!(d.is_inline());
    assert!(!d.is_heap());
    assert!(d == Storage::from_str("").unwrap());
}

#[test]
fn representation_is_exclusive_and_exhaustive() {
    let short = Storage::from_str("short").unwrap();
    assert!(short.is_inline() && !short.is_heap());

    let long = Storage::from_str("a string longer than fifteen bytes").unwrap();
    assert!(long.is_heap() && !long.is_inline());
}

#[test]
fn ordering_is_lexicographic() {
    let ab = Storage::from_str("ab").unwrap();
    let abc = Storage::from_str("abc").unwrap();
    let b = Storage::from_str("b").unwrap();
    assert!(ab < abc);
    assert!(ab < b);
    assert!(abc < b);
    assert!(ab <= ab);
    assert!(ab >= ab);
}

#[test]
fn ordering_crosses_representations() {
    let zz = Storage::from_str("zz").unwrap();
    let long_a = Storage::from_str("aaaaaaaaaaaaaaaaaaaaaaaa").unwrap();
    assert!(zz.is_inline() && long_a.is_heap());
    assert!(long_a < zz);
    assert!(zz > long_a);

    let prefix = Storage::from_str("prefix").unwrap();
    let longer = Storage::from_str("prefix and then quite a bit more").unwrap();
    assert!(prefix < longer);
}

#[test]
fn equality_is_content_based() {
    let a1 = Storage::from_str("same content").unwrap();
    let a2 = Storage::from_str("same content").unwrap();
    assert!(a1 == a2);

    let l1 = Storage::from_str("the same long content, stored on the heap").unwrap();
    let l2 = Storage::from_str("the same long content, stored on the heap").unwrap();
    assert!(l1.is_heap() && l2.is_heap());
    assert!(l1 == l2);
    assert!(a1 != l1);
}

#[test]
fn hash_is_consistent_for_equal_values() {
    let a1 = Storage::from_str("hashable").unwrap();
    let a2 = Storage::from_str("hashable").unwrap();
    let mut h1 = DefaultHasher::new();
    a1.hash(&mut h1);
    let mut h2 = DefaultHasher::new();
    a2.hash(&mut h2);
    assert_eq!(h1.finish(), h2.finish());

    let l1 = Storage::from_str("a hashable string longer than fifteen bytes").unwrap();
    let l2 = Storage::from_str("a hashable string longer than fifteen bytes").unwrap();
    assert!(l1 == l2);
    let mut h3 = DefaultHasher::new();
    l1.hash(&mut h3);
    let mut h4 = DefaultHasher::new();
    l2.hash(&mut h4);
    assert_eq!(h3.finish(), h4.finish());
}

#[test]
fn heap_values_construct_and_drop_in_bulk() {
    for i in 0..1000u32 {
        let s = format!("heap-path value number {i} padded well past the inline capacity");
        let storage = Storage::from_str(&s).unwrap();
        assert!(storage.is_heap());
        assert_eq!(storage.as_str(), s);
    }
}
