use synarion::Arena;

#[test]
fn alloc_and_access() {
    let mut arena = Arena::new();
    let a = arena.allocate(42);
    assert_eq!(*a, 42);
}

#[test]
fn multiple_allocs() {
    let mut arena = Arena::new();
    for i in 0..100 {
        let val = arena.allocate(i);
        assert_eq!(*val, i);
    }
    assert_eq!(arena.len(), 100);
}

#[test]
fn clear_works() {
    let mut arena = Arena::new();
    arena.allocate(1);
    arena.allocate(2);
    arena.clear();
    assert!(arena.is_empty());
}

#[test]
fn write_through_reference_is_kept() {
    let mut arena = Arena::new();
    *arena.allocate(1) = 10;
    arena.allocate(2);
    arena.allocate(3);
    assert_eq!(arena.len(), 3);
    assert_eq!(arena.get(0), Some(&10));
    assert_eq!(arena.get(1), Some(&2));
    assert_eq!(arena.get(2), Some(&3));
    assert_eq!(arena.get(3), None);
}

#[test]
fn items_stay_across_chunk_boundaries() {
    let mut arena = Arena::with_chunk_size(3);
    *arena.allocate(String::from("x")) = String::from("first");
    for i in 0..20 {
        arena.allocate(i.to_string());
        assert_eq!(arena.get(0), Some(&String::from("first")));
    }
    assert_eq!(arena.len(), 21);
    for i in 0..20usize {
        assert_eq!(arena.get(i + 1), Some(&i.to_string()));
    }
    assert_eq!(arena.get(21), None);
}

#[test]
fn chunk_size_zero_still_allocates() {
    let mut arena = Arena::with_chunk_size(0);
    assert!(arena.is_empty());
    for i in 0..5u8 {
        assert_eq!(*arena.allocate(i), i);
    }
    assert_eq!(arena.len(), 5);
    assert_eq!(arena.get(4), Some(&4));
    assert_eq!(arena.get(5), None);
}

#[test]
fn chunk_size_one() {
    let mut arena = Arena::with_chunk_size(1);
    arena.allocate('a');
    arena.allocate('b');
    assert_eq!(arena.len(), 2);
    assert_eq!(arena.get(0), Some(&'a'));
    assert_eq!(arena.get(1), Some(&'b'));
}

#[test]
fn clear_starts_over() {
    let mut arena = Arena::with_chunk_size(2);
    for i in 0..5 {
        arena.allocate(i);
    }
    assert!(!arena.is_empty());
    arena.clear();
    assert_eq!(arena.len(), 0);
    assert_eq!(arena.get(0), None);
    arena.allocate(7);
    assert_eq!(arena.len(), 1);
    assert_eq!(arena.get(0), Some(&7));
    assert_eq!(arena.get(1), None);
}

#[test]
fn new_arena_is_empty() {
    let a: Arena<u64> = Arena::new();
    let b: Arena<u64> = Arena::default();
    assert!(a.is_empty());
    assert_eq!(a.len(), 0);
    assert!(b.is_empty());
    assert_eq!(a.get(0), None);
}

#[test]
fn default_chunks_hold_1024_items() {
    let mut arena = Arena::new();
    for i in 0..2500u32 {
        arena.allocate(i);
    }
    assert_eq!(arena.len(), 2500);
    assert_eq!(arena.get(1023), Some(&1023));
    assert_eq!(arena.get(1024), Some(&1024));
    assert_eq!(arena.get(2499), Some(&2499));
    assert_eq!(arena.get(2500), None);
}
