use conrod::id::{IdError, IdRegistry};

#[test]
fn same_key_twice_gives_same_id() {
    let mut ids = IdRegistry::new();
    let a = ids.resolve(7, 1).unwrap();
    let b = ids.resolve(7, 1).unwrap();
    assert_eq!(a, b);
    assert_eq!(ids.issued(), 1);
}

#[test]
fn keys_get_runs_of_their_arity() {
    let mut ids = IdRegistry::new();
    assert_eq!(ids.resolve(1, 4), Ok(0));
    assert_eq!(ids.resolve(2, 1), Ok(4));
    assert_eq!(ids.new_unique_id(), Ok(5));
    assert_eq!(ids.resolve(1, 4), Ok(0));
}

#[test]
fn conflicting_arity_is_refused() {
    let mut ids = IdRegistry::new();
    ids.resolve(3, 2).unwrap();
    assert_eq!(
        ids.resolve(3, 5),
        Err(IdError::ArityConflict { key: 3, existing: 2, requested: 5 })
    );
    assert_eq!(ids.issued(), 2);
}

#[test]
fn unique_ids_never_repeat() {
    let mut ids = IdRegistry::new();
    let a = ids.new_unique_id().unwrap();
    let b = ids.new_unique_id().unwrap();
    let c = ids.resolve(9, 1).unwrap();
    assert!(a < b && b < c);
}

#[test]
fn exhausted_id_space_is_reported() {
    let mut ids = IdRegistry::new();
    assert_eq!(ids.resolve(1, u64::MAX), Ok(0));
    assert_eq!(ids.new_unique_id(), Err(IdError::Exhausted));
    assert_eq!(ids.resolve(2, 1), Err(IdError::Exhausted));
}
