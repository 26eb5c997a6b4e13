use powerlocks::handle::{CoreHandle, CoreThreadEnv, Handle, HandleId, HandleIdSource, ThreadEnv};

#[test]
fn fresh_handle_ids_are_distinct() {
    let mut source = HandleIdSource::new();
    let a = source.fresh();
    let b = source.fresh();
    let c = source.fresh();
    assert_ne!(a, b);
    assert_ne!(a, c);
    assert_ne!(b, c);
    assert!(a.0 < b.0 && b.0 < c.0);
    assert_ne!(a.0, 0);
}

#[test]
fn dumb_handle_is_the_sentinel() {
    assert_eq!(HandleId::new_dumb(), HandleId(0));
    let dumb = CoreHandle::dumb();
    assert_eq!(dumb.id(), HandleId(0));
    // Two dumb handles share the sentinel identity.
    assert_eq!(CoreHandle::dumb().id(), dumb.id());
}

#[test]
fn core_environment_never_unwinds() {
    assert!(!CoreThreadEnv::panicking());
    assert!(!CoreHandle::panicking());
    CoreThreadEnv::yield_now();
    CoreHandle::yield_now();
}

#[test]
fn core_handle_parking_is_a_hint() {
    let source_id = HandleIdSource::new().fresh();
    let handle = CoreHandle::new(source_id);
    assert_eq!(handle.id(), source_id);
    // Parking spins and unparking is a no-op; both must return.
    handle.unpark();
    handle.park();
    handle.unpark();
}
