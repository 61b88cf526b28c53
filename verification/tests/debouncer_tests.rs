use morse_kodeboard::debouncer::{DebouncedInput, DEBOUNCE_DEPTH};

/// Mixed samples shorter than the debounce depth never move the settled
/// state: pure hysteresis.
#[test]
fn mixed_short_burst_keeps_state() {
    let mut input = DebouncedInput::new(false);
    let samples = [
        true, false, true, true, false, false, true, false, true, true, false, true, false, true,
        false,
    ];
    assert!(samples.len() < DEBOUNCE_DEPTH);
    for &s in samples.iter() {
        let result = input.debounce(s);
        assert!(!result.is_on);
        assert!(!result.is_changed);
    }
}

/// Just under a full depth of consistent samples still does not flip.
#[test]
fn fifteen_consistent_samples_do_not_flip() {
    let mut input = DebouncedInput::new(false);
    for _ in 0..(DEBOUNCE_DEPTH - 1) {
        let result = input.debounce(true);
        assert!(!result.is_on);
        assert!(!result.is_changed);
    }
}

/// A full depth of unanimous samples settles at the unanimous value, and
/// the change is reported exactly once.
#[test]
fn unanimous_depth_flips_state() {
    let mut input = DebouncedInput::new(false);
    let mut flips = 0;
    for tick in 0..DEBOUNCE_DEPTH {
        let result = input.debounce(true);
        if result.is_changed {
            flips += 1;
            assert_eq!(tick, DEBOUNCE_DEPTH - 1);
        }
        assert_eq!(result.is_on, tick == DEBOUNCE_DEPTH - 1);
    }
    assert_eq!(flips, 1);
}

/// Samples that agree with the seeded level keep the state indefinitely.
#[test]
fn unanimous_matching_seed_keeps_value() {
    let mut input = DebouncedInput::new(true);
    for _ in 0..100 {
        let result = input.debounce(true);
        assert!(result.is_on);
        assert!(!result.is_changed);
    }
}

/// Whatever mixed history came before, a full depth of unanimous samples
/// ends with the settled state at the unanimous value.
#[test]
fn unanimous_tail_wins_over_any_history() {
    let mut input = DebouncedInput::new(true);
    // an arbitrary noisy stretch
    for t in 0..37u32 {
        input.debounce(t % 3 == 0);
    }
    // then sixteen consistent off samples
    let mut last = true;
    for _ in 0..DEBOUNCE_DEPTH {
        last = input.debounce(false).is_on;
    }
    assert!(!last);
}

/// After settling at a new value, a short burst of the old value is
/// suppressed.
#[test]
fn chatter_after_settling_is_suppressed() {
    let mut input = DebouncedInput::new(false);
    for _ in 0..DEBOUNCE_DEPTH {
        input.debounce(true);
    }
    for _ in 0..(DEBOUNCE_DEPTH - 1) {
        let result = input.debounce(false);
        assert!(result.is_on);
        assert!(!result.is_changed);
    }
}

/// `current` reports the settled state without consuming a sample.
#[test]
fn current_holds_settled_state() {
    let mut input = DebouncedInput::new(true);
    let held = input.current();
    assert!(held.is_on);
    assert!(!held.is_changed);
    // eight off samples are not enough to flip; current still reports on
    for _ in 0..8 {
        input.debounce(false);
    }
    let held = input.current();
    assert!(held.is_on);
    assert!(!held.is_changed);
}
