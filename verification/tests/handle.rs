use std::collections::HashSet;
use synarion::Handle;

#[test]
fn handle_is_copy() {
    let h1: Handle<u32> = Handle::new(1, 1);
    let h2 = h1;
    assert_eq!(h1, h2);
}

#[test]
fn handle_equality() {
    let h1: Handle<u32> = Handle::new(1, 1);
    let h2: Handle<u32> = Handle::new(1, 1);
    let h3: Handle<u32> = Handle::new(1, 2);

    assert_eq!(h1, h2);
    assert_ne!(h1, h3);
}

#[test]
fn handle_hash_works() {
    let mut set = HashSet::new();
    let h1: Handle<u32> = Handle::new(1, 1);
    let h2: Handle<u32> = Handle::new(1, 2);

    set.insert(h1);
    assert!(set.contains(&h1));
    assert!(!set.contains(&h2));
}

#[test]
fn handle_parts_read_back() {
    let h: Handle<String> = Handle::new(0, 1);
    assert_eq!(h.index(), 0);
    assert_eq!(h.generation(), 1);
    let far: Handle<String> = Handle::new(u32::MAX, u32::MAX);
    assert_eq!(far.index(), u32::MAX);
    assert_eq!(far.generation(), u32::MAX);
}

#[test]
fn handle_differs_by_index() {
    let h1: Handle<u8> = Handle::new(1, 7);
    let h2: Handle<u8> = Handle::new(2, 7);
    assert_ne!(h1, h2);
    assert!(h1 == h1.clone());
}

#[test]
fn handle_of_non_copy_type_is_copy() {
    let h1: Handle<String> = Handle::new(3, 4);
    let h2 = h1;
    let h3 = h1;
    assert!(h2 == h3);
}

struct Opaque;

#[test]
fn handle_hashes_by_index_and_generation_for_any_type() {
    let mut set = HashSet::new();
    let a: Handle<Opaque> = Handle::new(2, 0);
    let b: Handle<Opaque> = Handle::new(2, 0);
    let c: Handle<Opaque> = Handle::new(0, 2);
    assert!(set.insert(a));
    assert!(!set.insert(b));
    assert!(set.insert(c));
    assert_eq!(set.len(), 2);
}
