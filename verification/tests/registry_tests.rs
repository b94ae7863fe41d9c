use liquid_glass::registry::{GlassViewRegistry, ViewHandle};

#[test]
fn handle_round_trips_its_raw_value() {
    let h = ViewHandle::new(0x7f00_1234);
    assert_eq!(h.as_id(), 0x7f00_1234);
}

#[test]
fn empty_registry_contains_nothing() {
    let r = GlassViewRegistry::default();
    assert_eq!(r.contains("main").unwrap(), false);
    assert_eq!(r.len(), 0);
    assert!(r.get("main").unwrap().is_none());
}

#[test]
fn insert_then_get_returns_the_handles() {
    let mut r = GlassViewRegistry::default();
    r.insert("main".to_string(), ViewHandle::new(1), Some(ViewHandle::new(2)))
        .unwrap();
    assert!(r.contains("main").unwrap());
    assert_eq!(r.len(), 1);
    let (glass, overlay) = r.get("main").unwrap().unwrap();
    assert_eq!(glass.as_id(), 1);
    assert_eq!(overlay.unwrap().as_id(), 2);
}

#[test]
fn insert_overwrites_existing_entry() {
    let mut r = GlassViewRegistry::default();
    r.insert("main".to_string(), ViewHandle::new(1), None).unwrap();
    r.insert("main".to_string(), ViewHandle::new(3), None).unwrap();
    assert_eq!(r.len(), 1);
    let (glass, overlay) = r.get("main").unwrap().unwrap();
    assert_eq!(glass.as_id(), 3);
    assert!(overlay.is_none());
}

#[test]
fn entries_are_independent_per_label() {
    let mut r = GlassViewRegistry::default();
    r.insert("a".to_string(), ViewHandle::new(1), None).unwrap();
    r.insert("b".to_string(), ViewHandle::new(2), None).unwrap();
    assert_eq!(r.len(), 2);
    assert_eq!(r.get("a").unwrap().unwrap().0.as_id(), 1);
    assert_eq!(r.get("b").unwrap().unwrap().0.as_id(), 2);
}

#[test]
fn remove_returns_the_prior_entry() {
    let mut r = GlassViewRegistry::default();
    r.insert("main".to_string(), ViewHandle::new(1), Some(ViewHandle::new(2)))
        .unwrap();
    let prior = r.remove("main").unwrap().unwrap();
    assert_eq!(prior.0.as_id(), 1);
    assert_eq!(prior.1.unwrap().as_id(), 2);
    assert!(!r.contains("main").unwrap());
    assert_eq!(r.len(), 0);
}

#[test]
fn remove_absent_returns_none() {
    let mut r = GlassViewRegistry::default();
    assert!(r.remove("main").unwrap().is_none());
}

#[test]
fn update_tint_changes_only_the_overlay() {
    let mut r = GlassViewRegistry::default();
    r.insert("main".to_string(), ViewHandle::new(1), None).unwrap();
    r.update_tint("main", Some(ViewHandle::new(9))).unwrap();
    let (glass, overlay) = r.get("main").unwrap().unwrap();
    assert_eq!(glass.as_id(), 1);
    assert_eq!(overlay.unwrap().as_id(), 9);
    r.update_tint("main", None).unwrap();
    assert!(r.get("main").unwrap().unwrap().1.is_none());
}

#[test]
fn update_tint_on_absent_label_is_a_noop() {
    let mut r = GlassViewRegistry::default();
    r.update_tint("main", Some(ViewHandle::new(9))).unwrap();
    assert!(!r.contains("main").unwrap());
}
