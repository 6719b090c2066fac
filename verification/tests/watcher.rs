//! Watchers and their pauses.
use qsl_desktop::watcher::jittered;

#[test]
fn jittered_lands_in_half_to_one_and_a_half() {
    let base = 10_000;
    for _ in 0..1000 {
        let out = jittered(base);
        assert!(out >= 5_000);
        assert!(out < 15_000);
    }
}

#[test]
fn jittered_zero_stays_zero() {
    assert_eq!(jittered(0), 0);
}
