use synarion::SparseSet;

#[test]
fn insert_three_remove_one() {
    let mut set = SparseSet::new();
    set.insert(5, "five");
    set.insert(2, "two");
    set.insert(9, "nine");
    assert_eq!(set.remove(2), Some("two"));
    assert_eq!(set.len(), 2);
    assert!(!set.contains(2));
    assert!(set.contains(5));
    assert!(set.contains(9));
    assert_eq!(set.get(5), Some(&"five"));
    assert_eq!(set.get(9), Some(&"nine"));
    assert_eq!(set.get(2), None);
}

#[test]
fn sparse_insert_overwrites_in_place() {
    let mut set = SparseSet::new();
    set.insert(3, 30);
    set.insert(1, 10);
    set.insert(3, 31);
    assert_eq!(set.len(), 2);
    assert_eq!(set.get(3), Some(&31));
    assert_eq!(set.iter(), vec![(3, &31), (1, &10)]);
}

#[test]
fn sparse_remove_moves_last_into_hole() {
    let mut set = SparseSet::new();
    for i in [4u32, 8, 15, 16] {
        set.insert(i, i * 10);
    }
    assert_eq!(set.iter(), vec![(4, &40), (8, &80), (15, &150), (16, &160)]);
    assert_eq!(set.remove(8), Some(80));
    assert_eq!(set.iter(), vec![(4, &40), (16, &160), (15, &150)]);
    assert_eq!(set.remove(15), Some(150));
    assert_eq!(set.iter(), vec![(4, &40), (16, &160)]);
    assert_eq!(set.get(16), Some(&160));
    assert_eq!(set.remove(15), None);
    assert_eq!(set.len(), 2);
}

#[test]
fn sparse_missing_indices_yield_nothing() {
    let mut set: SparseSet<u8> = SparseSet::new();
    assert!(set.is_empty());
    assert_eq!(set.get(0), None);
    assert_eq!(set.get_mut(0), None);
    assert_eq!(set.remove(0), None);
    assert!(!set.contains(0));
    set.insert(2, 1);
    assert_eq!(set.get(1), None);
    assert_eq!(set.get(3), None);
    assert_eq!(set.get(1_000_000), None);
    assert_eq!(set.remove(1_000_000), None);
    assert!(!set.contains(u32::MAX));
    assert_eq!(set.len(), 1);
}

#[test]
fn sparse_get_mut_writes_through() {
    let mut set = SparseSet::new();
    set.insert(7, String::from("a"));
    set.insert(0, String::from("z"));
    if let Some(v) = set.get_mut(7) {
        v.push('b');
    }
    assert_eq!(set.get(7), Some(&String::from("ab")));
    assert_eq!(set.get(0), Some(&String::from("z")));
    assert_eq!(set.len(), 2);
}

#[test]
fn sparse_reinsert_after_remove() {
    let mut set = SparseSet::new();
    set.insert(1, 'a');
    assert_eq!(set.remove(1), Some('a'));
    assert!(set.is_empty());
    set.insert(1, 'b');
    assert_eq!(set.get(1), Some(&'b'));
    assert_eq!(set.len(), 1);
}

#[test]
fn sparse_dense_pairs_are_found_through_their_index() {
    let mut set = SparseSet::new();
    let script: [(bool, u32); 14] = [
        (true, 3),
        (true, 0),
        (true, 12),
        (false, 0),
        (true, 5),
        (true, 3),
        (false, 7),
        (false, 12),
        (true, 1),
        (true, 12),
        (false, 3),
        (false, 5),
        (true, 40),
        (false, 1),
    ];
    for (step, (is_insert, index)) in script.iter().enumerate() {
        if *is_insert {
            set.insert(*index, step);
        } else {
            set.remove(*index);
        }
        let pairs = set.iter();
        assert_eq!(pairs.len(), set.len());
        for (i, v) in pairs.iter() {
            assert!(set.contains(*i));
            assert_eq!(set.get(*i), Some(*v));
        }
        for a in 0..pairs.len() {
            for b in 0..a {
                assert_ne!(pairs[a].0, pairs[b].0);
            }
        }
    }
    assert_eq!(set.iter(), vec![(12, &9), (40, &12)]);
}

#[test]
fn sparse_iter_restarts() {
    let mut set = SparseSet::new();
    set.insert(2, 'x');
    set.insert(1, 'y');
    let first = set.iter();
    let second = set.iter();
    assert_eq!(first, second);
    assert_eq!(first, vec![(2, &'x'), (1, &'y')]);
    let empty: SparseSet<char> = SparseSet::default();
    assert!(empty.iter().is_empty());
}
