use synarion::traits::{Identifiable, Named};
use synarion::{GenerationalId, Id};

#[test]
fn id_from_raw_reads_back() {
    assert_eq!(Id::from_raw(17).raw(), 17);
    assert_eq!(Id::from_raw(u64::MAX).raw(), u64::MAX);
    assert_eq!(Id::from_raw(5), Id::from_raw(5));
    assert_ne!(Id::from_raw(5), Id::from_raw(6));
}

#[test]
fn id_invalid_is_zero() {
    assert_eq!(Id::invalid().raw(), 0);
    assert!(Id::invalid().is_invalid());
    assert!(Id::from_raw(0).is_invalid());
    assert!(!Id::from_raw(1).is_invalid());
    assert_eq!(Id::invalid(), Id::from_raw(0));
}

#[test]
fn generational_id_parts_read_back() {
    let id = GenerationalId::new(3, 9);
    assert_eq!(id.index(), 3);
    assert_eq!(id.generation(), 9);
    assert_eq!(id, GenerationalId::new(3, 9));
    assert_ne!(id, GenerationalId::new(3, 10));
    assert_ne!(id, GenerationalId::new(4, 9));
}

struct Lamp {
    id: Id,
    label: String,
}

impl Identifiable for Lamp {
    fn id(&self) -> Id {
        self.id
    }
}

impl Named for Lamp {
    fn name(&self) -> &str {
        &self.label
    }
}

#[test]
fn traits_can_be_implemented() {
    let lamp = Lamp { id: Id::from_raw(4), label: String::from("lamp") };
    assert_eq!(lamp.id().raw(), 4);
    assert_eq!(lamp.name(), "lamp");
}
