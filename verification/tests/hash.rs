use yapall::hash::cached::{never_zero, CachedHash};
use yapall::hash::precomputed::PrecomputedHash;
use yapall::hash::prehashed::PreHashed;

#[test]
fn default_get() {
    assert!(CachedHash::<u8>::default().get().is_none());
}

#[test]
fn cached_get() {
    assert!(CachedHash::<u8>::cached(&0).get().is_some());
    assert!(CachedHash::<u8>::cached(&u8::MAX).get().is_some());
    assert!(CachedHash::<u64>::cached(&0).get().is_some());
    assert!(CachedHash::<u64>::cached(&u64::MAX).get().is_some());
}

#[test]
fn get_or_init_twice() {
    let mut cached = CachedHash::<u8>::default();
    assert_eq!(cached.get_or_init(&0), cached.get_or_init(&0));
}

#[test]
fn get_or_init_neq() {
    let mut cached = CachedHash::<u8>::default();
    assert!(cached.get_or_init(&0) == cached.get_or_init(&1));
}

#[test]
fn zero_is_unset() {
    assert_eq!(CachedHash::<u8>::from_u64(0).get(), None);
    assert_eq!(CachedHash::<u8>::from_u64(7).get(), Some(7));
    assert_eq!(CachedHash::<u8>::from_non_zero(9).get(), Some(9));
}

#[test]
fn computed_hash_is_not_zero_and_depends_on_the_value() {
    assert_ne!(CachedHash::<u64>::compute_hash(&0), 0);
    assert_ne!(CachedHash::<u64>::compute_hash(&1), CachedHash::<u64>::compute_hash(&2));
}

#[test]
fn prehashed_keeps_value_and_hash() {
    let p = PreHashed::new(17u32);
    let h = p.hash_value();
    assert_eq!(h, PrecomputedHash::<u32>::new(&17).to_u64());
    assert_eq!(**p.for_ref().as_ref(), 17);
    assert_eq!(p.for_ref().hash_value(), h);
    assert!(p.equals(&PreHashed::new(17u32)));
    assert_eq!(p.into_inner(), 17);
}

#[test]
fn precomputed_hash_carries_its_number() {
    let h = PrecomputedHash::<u8>::unsafe_from_u64(5);
    assert_eq!(h.clone().unsafe_coerce::<u16>().to_u64(), 5);
    assert!(h.equals(&PrecomputedHash::unsafe_from_u64(5)));
    assert!(!h.equals(&PrecomputedHash::unsafe_from_u64(6)));
}

#[test]
fn prehashed_maps_and_copies() {
    let p = PreHashed::new(3u8);
    let h = p.hash_value();
    let copy = p.for_ref().from_ref();
    assert_eq!(copy.hash_value(), h);
    assert_eq!(*copy.as_ref(), 3);
    let q = p.unsafe_map(|v| u32::from(v) + 1);
    assert_eq!(q.hash_value(), h);
    assert_eq!(q.into_inner(), 4);
}

#[test]
fn references_are_compared_by_place() {
    let x = 1;
    let y = 1;
    let a = yapall::hash::refhash::RefHash::new(&x);
    let b = yapall::hash::refhash::RefHash::new(&x);
    let c = yapall::hash::refhash::RefHash::new(&y);
    assert!(a.equals(&b));
    assert!(!a.equals(&c));
    assert_eq!(*a.as_ref(), 1);
    assert_eq!(*c.into_inner(), 1);
}

#[test]
fn zero_is_never_cached() {
    assert_eq!(never_zero(0), 1);
    assert_eq!(never_zero(1), 1);
    assert_eq!(never_zero(2), 2);
    assert_eq!(never_zero(u64::MAX), u64::MAX);
    assert_eq!(CachedHash::<u8>::from_u64(never_zero(0)).get(), Some(1));
}
