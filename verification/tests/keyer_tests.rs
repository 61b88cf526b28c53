use morse_kodeboard::keyer::MorseKeyer;

/// The raw line level at millisecond `t` for keying two dits with a dit
/// of 60 ms: active during [0, 75) and [135, 210), with contact bounce in
/// the first few milliseconds of every edge.
fn noisy_level(t: u64) -> bool {
    let clean = (t < 75) || (135 <= t && t < 210);
    // six milliseconds of alternating chatter after each edge
    let since_edge = [0u64, 75, 135, 210]
        .iter()
        .filter(|&&e| t >= e)
        .map(|&e| t - e)
        .min()
        .unwrap_or(u64::MAX);
    if since_edge < 6 {
        if t % 2 == 0 {
            clean
        } else {
            !clean
        }
    } else {
        clean
    }
}

/// End to end through debouncer and decoder: a noisy line keying two dits
/// settles cleanly and decodes to `i`, exactly once.
#[test]
fn noisy_two_dits_decode_to_i() {
    let mut keyer = MorseKeyer::new(false, 60);
    let mut emitted = Vec::new();
    for t in 0..1_200u64 {
        if let Some(c) = keyer.sample(noisy_level(t), t) {
            emitted.push(c);
        }
    }
    assert_eq!(emitted, vec!['i']);
}

/// Chatter alone, shorter than the debounce depth, never reaches the
/// decoder: nothing is ever emitted.
#[test]
fn chatter_alone_emits_nothing() {
    let mut keyer = MorseKeyer::new(false, 60);
    for t in 0..5_000u64 {
        // ten-sample bursts, never sixteen consecutive identical samples
        let level = (t % 20) < 10 && t % 2 == 0;
        assert_eq!(keyer.sample(level, t), None);
    }
}

/// When the line becomes unreadable after keying, the held settled state
/// still completes the pending character.
#[test]
fn held_state_completes_character() {
    let mut keyer = MorseKeyer::new(false, 60);
    let mut emitted = Vec::new();
    // key one clean dah: active during [0, 180)
    for t in 0..200u64 {
        let level = t < 180;
        if let Some(c) = keyer.sample(level, t) {
            emitted.push(c);
        }
    }
    // the line becomes unavailable; the keyer holds the settled state
    for t in 200..1_500u64 {
        if let Some(c) = keyer.hold_last(t) {
            emitted.push(c);
        }
    }
    assert_eq!(emitted, vec!['t']);
}
