use synarion::{Handle, SlotMap};

#[test]
fn insert_and_get() {
    let mut map = SlotMap::new();
    let handle = map.insert(42);

    assert_eq!(map.get(handle), Some(&42));
    assert_eq!(map.len(), 1);
}

#[test]
fn remove_invalidates_handle() {
    let mut map = SlotMap::new();
    let handle = map.insert("test");

    assert_eq!(map.remove(handle), Some("test"));
    assert_eq!(map.get(handle), None);
    assert_eq!(map.len(), 0);
}

#[test]
fn slot_reuse_with_new_generation() {
    let mut map = SlotMap::new();

    let h1 = map.insert("first");
    map.remove(h1);

    let h2 = map.insert("second");

    // Same index, different generation
    assert_eq!(h1.index(), h2.index());
    assert_ne!(h1.generation(), h2.generation());

    // Old handle is invalid
    assert_eq!(map.get(h1), None);
    assert_eq!(map.get(h2), Some(&"second"));
}

#[test]
fn get_mut_works() {
    let mut map = SlotMap::new();
    let handle = map.insert(10);

    if let Some(value) = map.get_mut(handle) {
        *value = 20;
    }

    assert_eq!(map.get(handle), Some(&20));
}

#[test]
fn contains_works() {
    let mut map = SlotMap::new();
    let h1 = map.insert(1);

    assert!(map.contains(h1));
    map.remove(h1);
    assert!(!map.contains(h1));
}

#[test]
fn multiple_inserts_and_removes() {
    let mut map = SlotMap::new();

    let h1 = map.insert(1);
    let h2 = map.insert(2);
    let h3 = map.insert(3);

    assert_eq!(map.len(), 3);

    map.remove(h2);
    assert_eq!(map.len(), 2);
    assert_eq!(map.get(h2), None);
    assert_eq!(map.get(h1), Some(&1));
    assert_eq!(map.get(h3), Some(&3));

    // Reuse slot
    let h4 = map.insert(4);
    assert_eq!(h4.index(), h2.index());
    assert_eq!(map.len(), 3);
}

#[test]
fn first_second_third_scenario() {
    let mut map = SlotMap::new();
    let h1 = map.insert("first");
    let h2 = map.insert("second");
    assert_eq!(h1.index(), 0);
    assert_eq!(h2.index(), 1);
    assert_eq!(h1.generation(), 0);
    assert_eq!(h2.generation(), 0);

    assert_eq!(map.remove(h1), Some("first"));
    let h3 = map.insert("third");
    assert_eq!(h3.index(), 0);
    assert_eq!(h3.generation(), 1);
    assert_eq!(map.get(h1), None);
    assert_eq!(map.get(h2), Some(&"second"));
    assert_eq!(map.get(h3), Some(&"third"));
}

#[test]
fn round_trip_reads_back_each_value() {
    let mut map = SlotMap::new();
    for v in [0u64, 1, 17, u64::MAX] {
        let h = map.insert(v);
        assert_eq!(map.get(h), Some(&v));
        assert!(map.contains(h));
    }
    assert_eq!(map.len(), 4);
}

#[test]
fn removed_handle_is_stale() {
    let mut map = SlotMap::new();
    let keep = map.insert(String::from("keep"));
    let h = map.insert(String::from("gone"));
    assert_eq!(map.remove(h), Some(String::from("gone")));
    assert_eq!(map.get(h), None);
    assert!(!map.contains(h));
    assert_eq!(map.get_mut(h), None);
    assert_eq!(map.get(keep), Some(&String::from("keep")));
}

#[test]
fn second_remove_changes_nothing() {
    let mut map = SlotMap::new();
    let h1 = map.insert(1);
    let h2 = map.insert(2);
    assert_eq!(map.remove(h1), Some(1));
    assert_eq!(map.remove(h1), None);
    assert_eq!(map.len(), 1);
    assert_eq!(map.get(h2), Some(&2));
    // the vacated slot is still the next to be reused, once
    let h3 = map.insert(3);
    assert_eq!(h3.index(), h1.index());
    assert_eq!(h3.generation(), 1);
    let h4 = map.insert(4);
    assert_eq!(h4.index(), 2);
    assert_eq!(h4.generation(), 0);
}

#[test]
fn unknown_handles_yield_nothing() {
    let mut map: SlotMap<i32> = SlotMap::new();
    let far: Handle<i32> = Handle::new(7, 0);
    assert_eq!(map.get(far), None);
    assert!(!map.contains(far));
    assert_eq!(map.remove(far), None);
    assert_eq!(map.get_mut(far), None);
    assert!(map.is_empty());

    let h = map.insert(5);
    let wrong_generation: Handle<i32> = Handle::new(h.index(), h.generation() + 1);
    assert_eq!(map.get(wrong_generation), None);
    assert!(!map.contains(wrong_generation));
    assert_eq!(map.remove(wrong_generation), None);
    assert_eq!(map.get(h), Some(&5));
    assert_eq!(map.len(), 1);

    let sentinel: Handle<i32> = Handle::new(u32::MAX, 0);
    assert_eq!(map.get(sentinel), None);
    assert_eq!(map.remove(sentinel), None);
}

#[test]
fn vacated_slots_are_reused_last_in_first_out() {
    let mut map = SlotMap::new();
    let a = map.insert('a');
    let b = map.insert('b');
    let c = map.insert('c');
    map.remove(a);
    map.remove(c);
    map.remove(b);
    assert!(map.is_empty());
    let x = map.insert('x');
    let y = map.insert('y');
    let z = map.insert('z');
    assert_eq!((x.index(), x.generation()), (1, 1));
    assert_eq!((y.index(), y.generation()), (2, 1));
    assert_eq!((z.index(), z.generation()), (0, 1));
    let w = map.insert('w');
    assert_eq!((w.index(), w.generation()), (3, 0));
    assert_eq!(map.len(), 4);
}

#[test]
fn len_is_inserts_minus_successful_removes() {
    let mut map = SlotMap::new();
    let mut handles = Vec::new();
    let mut inserts = 0usize;
    let mut removes = 0usize;
    for round in 0..50u32 {
        handles.push(map.insert(round));
        inserts += 1;
        if round % 3 == 0 {
            let h = handles[(round / 2) as usize];
            if map.remove(h).is_some() {
                removes += 1;
            }
        }
        assert_eq!(map.len(), inserts - removes);
        assert_eq!(map.is_empty(), inserts == removes);
    }
    assert!(removes > 0);
}

#[test]
fn generation_counts_each_reuse_of_a_slot() {
    let mut map = SlotMap::new();
    let mut h = map.insert(0u32);
    for round in 1..=10u32 {
        let old = h;
        assert_eq!(map.remove(old), Some(round - 1));
        h = map.insert(round);
        assert_eq!(h.index(), 0);
        assert_eq!(h.generation(), round);
        assert_eq!(map.get(old), None);
        assert_eq!(map.get(h), Some(&round));
    }
    assert_eq!(map.len(), 1);
}

#[test]
fn default_slot_map_is_empty() {
    let map: SlotMap<u8> = SlotMap::default();
    assert!(map.is_empty());
    assert_eq!(map.len(), 0);
}

#[test]
fn store_has_room() {
    let mut map = SlotMap::new();
    assert!(map.has_room());
    let h = map.insert(1u8);
    assert!(map.has_room());
    map.remove(h);
    assert!(map.has_room());
}
