use vandelay::logging::{Logger, LEVEL_BODIES, LEVEL_DEFAULT, LEVEL_METHOD, LEVEL_PROGRESS, LEVEL_QUIET};

#[test]
fn quiet_is_level_zero() {
    assert_eq!(Logger::from_flags(true, 3).level(), LEVEL_QUIET);
}

#[test]
fn default_is_level_one() {
    assert_eq!(Logger::from_flags(false, 0).level(), LEVEL_DEFAULT);
}

#[test]
fn verbose_caps_at_four() {
    assert_eq!(Logger::from_flags(false, 9).level(), LEVEL_BODIES);
}

#[test]
fn enabled_is_a_superset_scale() {
    let l = Logger::from_flags(false, 1);
    assert!(l.enabled(LEVEL_DEFAULT));
    assert!(l.enabled(LEVEL_PROGRESS));
    assert!(!l.enabled(LEVEL_METHOD));
}

#[test]
fn verbosity_saturates_instead_of_wrapping() {
    assert_eq!(Logger::from_flags(false, 255).level(), LEVEL_BODIES);
    assert_eq!(Logger::new(200).level(), LEVEL_BODIES);
    assert_eq!(Logger::new(2).level(), LEVEL_PROGRESS);
}
