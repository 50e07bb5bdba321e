use tough::ExpirationEnforcement;

// The conversions between flags and modes must not change by mistake.
#[test]
fn expiration_enforcement_traits() {
    let enforce = true;
    let safe: ExpirationEnforcement = enforce.into();
    assert_eq!(safe, ExpirationEnforcement::Safe);
    let not_enforce = false;
    let not_safe: ExpirationEnforcement = not_enforce.into();
    assert_eq!(not_safe, ExpirationEnforcement::Unsafe);
    let enforcing: bool = ExpirationEnforcement::Safe.into();
    assert!(enforcing);
    let non_enforcing: bool = ExpirationEnforcement::Unsafe.into();
    assert!(!non_enforcing);
    let default = ExpirationEnforcement::default();
    assert_eq!(default, ExpirationEnforcement::Safe);
}

#[test]
fn enforcement_round_trips_through_bool() {
    for flag in [true, false] {
        let mode: ExpirationEnforcement = flag.into();
        let back: bool = mode.into();
        assert_eq!(back, flag);
    }
    for mode in [ExpirationEnforcement::Safe, ExpirationEnforcement::Unsafe] {
        let flag: bool = mode.into();
        let back: ExpirationEnforcement = flag.into();
        assert_eq!(back, mode);
    }
}
