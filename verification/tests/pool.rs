use synarion::{Handle, Pool};

#[test]
fn pool_insert_get_remove() {
    let mut pool = Pool::new();
    let h1 = pool.insert("one");
    let h2 = pool.insert("two");
    assert_eq!((h1.index(), h1.generation()), (0, 0));
    assert_eq!((h2.index(), h2.generation()), (1, 0));
    assert_eq!(pool.len(), 2);
    assert_eq!(pool.get(h1), Some(&"one"));
    assert_eq!(pool.remove(h1), Some("one"));
    assert_eq!(pool.remove(h1), None);
    assert_eq!(pool.get(h1), None);
    assert_eq!(pool.get(h2), Some(&"two"));
    assert_eq!(pool.len(), 1);
    assert!(!pool.is_empty());
}

#[test]
fn pool_reuse_does_not_revive_old_handle() {
    let mut pool = Pool::with_capacity(4);
    let h1 = pool.insert(1);
    assert_eq!(pool.remove(h1), Some(1));
    let h2 = pool.insert(2);
    assert_eq!(h2.index(), h1.index());
    assert_eq!(h2.generation(), 1);
    assert_eq!(pool.get(h1), None);
    assert_eq!(pool.get_mut(h1), None);
    assert_eq!(pool.get(h2), Some(&2));
}

#[test]
fn pool_get_mut_writes_through() {
    let mut pool = Pool::new();
    let h = pool.insert(String::from("a"));
    if let Some(s) = pool.get_mut(h) {
        s.push('b');
    }
    assert_eq!(pool.get(h), Some(&String::from("ab")));
    let nowhere: Handle<String> = Handle::new(9, 0);
    assert_eq!(pool.get_mut(nowhere), None);
}

#[test]
fn pool_starts_empty() {
    let a: Pool<u8> = Pool::new();
    let b: Pool<u8> = Pool::with_capacity(16);
    let c: Pool<u8> = Pool::default();
    assert!(a.is_empty() && b.is_empty() && c.is_empty());
    assert!(a.has_room() && b.has_room() && c.has_room());
    assert_eq!(a.len() + b.len() + c.len(), 0);
}
