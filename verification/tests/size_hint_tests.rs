use port_forwarder::size_hint::SizeHint;

#[test]
fn new_hint_knows_nothing() {
    let hint = SizeHint::new();
    assert_eq!(hint.lower(), 0);
    assert_eq!(hint.upper(), None);
    assert_eq!(hint.exact(), None);
}

#[test]
fn exact_hint_has_equal_bounds() {
    let hint = SizeHint::with_exact(42);
    assert_eq!(hint.lower(), 42);
    assert_eq!(hint.upper(), Some(42));
    assert_eq!(hint.exact(), Some(42));
}

#[test]
fn bounds_can_be_set() {
    let mut hint = SizeHint::new();
    hint.set_upper(10);
    hint.set_lower(3);
    assert_eq!(hint.lower(), 3);
    assert_eq!(hint.upper(), Some(10));
    assert_eq!(hint.exact(), None);
    hint.set_lower(10);
    assert_eq!(hint.exact(), Some(10));
}

#[test]
fn lower_bound_without_upper_bound() {
    let mut hint = SizeHint::new();
    hint.set_lower(u64::MAX);
    assert_eq!(hint.lower(), u64::MAX);
    assert_eq!(hint.upper(), None);
}
