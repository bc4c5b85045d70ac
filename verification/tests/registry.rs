use properr::Registry;

#[test]
fn identifiers_are_issued_in_order() {
    let mut reg: Registry<f64> = Registry::new();
    assert_eq!(reg.allocate(0.5), 0);
    assert_eq!(reg.allocate(0.5), 1);
    assert_eq!(reg.allocate(2.0), 2);
}

#[test]
fn lookup_returns_the_registered_sigma() {
    let mut reg: Registry<f64> = Registry::new();
    assert_eq!(reg.lookup(0), None);
    let a = reg.allocate(0.25);
    let b = reg.allocate(4.0);
    assert_eq!(reg.lookup(a), Some(0.25));
    assert_eq!(reg.lookup(b), Some(4.0));
    assert_eq!(reg.lookup(2), None);
    assert_eq!(reg.lookup(u64::MAX), None);
}

#[test]
fn entries_are_never_changed() {
    let mut reg: Registry<f64> = Registry::new();
    let a = reg.allocate(0.25);
    for _ in 0..100 {
        reg.allocate(7.0);
    }
    assert_eq!(reg.lookup(a), Some(0.25));
    assert_eq!(reg.lookup(100), Some(7.0));
    assert_eq!(reg.lookup(101), None);
}

#[test]
fn a_fresh_registry_has_room() {
    let mut reg: Registry<f64> = Registry::new();
    assert!(reg.has_room(0));
    assert!(reg.has_room(1));
    assert!(reg.has_room(usize::MAX));
    reg.allocate(1.0);
    assert!(reg.has_room(1));
    assert!(reg.has_room(usize::MAX - 1));
}

#[test]
fn registries_are_independent_of_each_other() {
    let mut first: Registry<f64> = Registry::new();
    let mut second: Registry<f64> = Registry::new();
    assert_eq!(first.allocate(1.0), 0);
    assert_eq!(second.allocate(2.0), 0);
    assert_eq!(first.lookup(0), Some(1.0));
    assert_eq!(second.lookup(0), Some(2.0));
}
