use livedoc::id::Id;
use livedoc::registry::IdMap;

#[test]
fn interning_reports_text_and_never_collides_with_itself() {
    let mut registry = IdMap::new();
    let id = Id::from_str("walk");
    assert!(id.check_collision(&mut registry, "walk").is_none());
    // the registry now reports the interned text for the id
    let stored = registry.interned_text(id).expect("interned");
    assert_eq!(stored.as_str(), "walk");
    // re-interning the same text never raises a collision
    assert!(id.check_collision(&mut registry, "walk").is_none());
    assert!(registry.contains("walk"));
    assert!(!registry.contains("run"));
}

#[test]
fn differing_text_under_one_id_is_a_collision() {
    let mut registry = IdMap::new();
    let id = Id::from_str("walk");
    assert!(id.check_collision(&mut registry, "walk").is_none());
    // the same 64-bit word presented with different source text collides
    let clash = id.check_collision(&mut registry, "other");
    assert_eq!(clash.as_deref(), Some("walk"));
    // the registry keeps the first text
    assert_eq!(registry.interned_text(id).unwrap().as_str(), "walk");
}

#[test]
fn add_interns_under_the_hashed_id() {
    let mut registry = IdMap::new();
    registry.add("button");
    let id = Id::from_str("button");
    assert_eq!(registry.interned_text(id).unwrap().as_str(), "button");
}

#[test]
fn non_single_ids_never_intern_or_collide() {
    let mut registry = IdMap::new();
    let id = Id::multi(0, 2);
    assert!(id.check_collision(&mut registry, "anything").is_none());
    assert!(registry.interned_text(id).is_none());
}

#[test]
fn panic_collision_passes_the_id_through() {
    let mut registry = IdMap::new();
    let id = Id::from_str("label");
    let same = id.panic_collision(&mut registry, "label");
    assert_eq!(same, id);
    assert_eq!(registry.interned_text(id).unwrap().as_str(), "label");
}
