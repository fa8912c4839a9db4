use yapall::arc::cached::Arc;
use yapall::arc::precomputed;
use yapall::arc::uarc::UArc;

#[test]
fn a_cached_hash_is_computed_once() {
    let mut a = Arc::new(5u32);
    assert_eq!(*a.as_ref(), 5);
    assert!(a.hash.get().is_none());
    let h = a.hash_value();
    assert_ne!(h, 0);
    assert_eq!(a.hash.get(), Some(h));
    assert_eq!(a.hash_value(), h);
    let mut b = a.clone();
    assert_eq!(*b.as_ref(), 5);
    assert_eq!(b.hash.get(), Some(h));
    assert_eq!(b.hash_value(), h);
    assert_eq!(Arc::new(5u32).hash_value(), h);
    assert_ne!(Arc::new(6u32).hash_value(), h);
}

#[test]
fn a_precomputed_hash_comes_with_the_value() {
    let a = precomputed::Arc::new("x".to_string());
    let b = a.clone();
    assert_eq!(a.as_ref(), "x");
    assert_eq!(b.as_ref(), "x");
    assert_eq!(a.hash_value(), b.hash_value());
    assert_eq!(a.hash_value(), precomputed::Arc::new("x".to_string()).hash_value());
    assert_ne!(a.hash_value(), precomputed::Arc::new("y".to_string()).hash_value());
}

#[test]
fn unique_pointers_are_compared_by_place() {
    let a = UArc::new(1);
    let b = UArc::new(1);
    let c = a.clone();
    assert!(a.equals(&a));
    assert!(a.equals(&c));
    assert!(c.equals(&a));
    assert!(!a.equals(&b));
    assert_eq!(*c.as_ref(), 1);
    assert_eq!(*b.into_arc(), 1);
}
