use std::collections::HashMap;

use rustymixer::control::{standard_controls, ControlId, ControlRegistry, StandardControlKind};

#[test]
fn control_id_display() {
    let id = ControlId::new("[Master]", "crossfader");
    assert_eq!(id.to_string(), "[Master],crossfader");
}

#[test]
fn control_id_equality_and_hash() {
    let a = ControlId::new("[Channel1]", "volume");
    let b = ControlId::new("[Channel1]", "volume");
    let c = ControlId::new("[Channel2]", "volume");
    assert_eq!(a, b);
    assert_ne!(a, c);

    // Works as HashMap key
    let mut map = HashMap::new();
    map.insert(a.clone(), 42);
    assert_eq!(map.get(&b), Some(&42));
    assert_eq!(map.get(&c), None);
}

#[test]
fn control_id_is_same() {
    let a = ControlId::new("[Channel1]", "volume");
    assert!(a.is_same(&ControlId::new("[Channel1]", "volume")));
    assert!(!a.is_same(&ControlId::new("[Channel1]", "play")));
    assert!(!a.is_same(&ControlId::new("[Channel2]", "volume")));
}

#[test]
fn registry_register_and_lookup() {
    let mut reg: ControlRegistry<f64> = ControlRegistry::new();
    reg.register(ControlId::new("[Master]", "volume"), 0.8);

    assert_eq!(reg.get(&ControlId::new("[Master]", "volume")), Some(&0.8));
    assert_eq!(reg.len(), 1);
    assert!(reg.contains(&ControlId::new("[Master]", "volume")));
    assert!(!reg.contains(&ControlId::new("[Master]", "play")));
}

#[test]
fn registry_get_missing_is_none() {
    let mut reg: ControlRegistry<u32> = ControlRegistry::new();
    assert!(reg.is_empty());
    reg.register(ControlId::new("[Channel1]", "play"), 7);
    assert!(!reg.is_empty());
    assert_eq!(reg.get(&ControlId::new("[Channel1]", "play")), Some(&7));
    assert_eq!(reg.get(&ControlId::new("[Channel3]", "volume")), None);
}

#[test]
fn standard_controls_fill_an_empty_registry() {
    let controls = standard_controls();
    assert_eq!(controls.len(), 18);
    let mut reg: ControlRegistry<StandardControlKind> = ControlRegistry::default();
    for c in controls {
        assert!(!reg.contains(&c.id));
        reg.register(c.id, c.kind);
    }
    assert_eq!(reg.len(), 18);
    assert_eq!(
        reg.get(&ControlId::new("[Master]", "crossfader")),
        Some(&StandardControlKind::Crossfader)
    );
    assert_eq!(
        reg.get(&ControlId::new("[Master]", "volume")),
        Some(&StandardControlKind::MasterVolume)
    );
    for g in ["[Channel1]", "[Channel2]"] {
        assert_eq!(reg.get(&ControlId::new(g, "volume")), Some(&StandardControlKind::Volume));
        assert_eq!(reg.get(&ControlId::new(g, "play")), Some(&StandardControlKind::Play));
        assert_eq!(reg.get(&ControlId::new(g, "duration")), Some(&StandardControlKind::Duration));
    }
}

#[test]
fn standard_controls_order() {
    let controls = standard_controls();
    let names: Vec<String> = controls.iter().map(|c| c.id.to_string()).collect();
    assert_eq!(names[0], "[Master],crossfader");
    assert_eq!(names[1], "[Master],volume");
    assert_eq!(names[2], "[Channel1],volume");
    assert_eq!(names[9], "[Channel1],duration");
    assert_eq!(names[10], "[Channel2],volume");
    assert_eq!(names[17], "[Channel2],duration");
}
