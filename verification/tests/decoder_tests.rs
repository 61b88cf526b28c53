use morse_kodeboard::decoder::Decoder;
use morse_kodeboard::morse::{char_to_marks, decode_buffer, MorseValue};
use morse_kodeboard::pipeline::{make_reports, Event, SHIFT_MODIFIER};

const DIT_MS: u64 = 60;

/// Nominal keying length of one mark, in dit-units.
fn unit_length(mark: MorseValue) -> u64 {
    match mark {
        MorseValue::Dah => 3,
        _ => 1,
    }
}

/// Keys one character's marks at exactly the dit duration, starting at
/// `start`: press, hold for the nominal length, release, one dit-unit of
/// silence between marks. Returns the characters emitted and the time of
/// the last release.
fn key_marks(decoder: &mut Decoder, marks: &[MorseValue], start: u64) -> (Vec<char>, u64) {
    let mut emitted = Vec::new();
    let mut t = start;
    for &mark in marks.iter() {
        if let Some(c) = decoder.push(true, t) {
            emitted.push(c);
        }
        t += unit_length(mark) * DIT_MS;
        if let Some(c) = decoder.push(false, t) {
            emitted.push(c);
        }
        t += DIT_MS;
    }
    (emitted, t - DIT_MS)
}

/// Keys one character and ends it with a silent observation seven
/// dit-units after the last release, which forces the break.
fn key_char(decoder: &mut Decoder, marks: &[MorseValue], start: u64) -> Vec<char> {
    let (mut emitted, last_release) = key_marks(decoder, marks, start);
    if let Some(c) = decoder.push(false, last_release + 7 * DIT_MS) {
        emitted.push(c);
    }
    emitted
}

/// Round trip: every alphabet entry keyed at exactly the configured dit
/// duration decodes back to itself.
#[test]
fn round_trip_all_entries() {
    let alphabet = "abcdefghijklmnopqrstuvwxyz1234567890";
    for c in alphabet.chars() {
        let marks = char_to_marks(c).expect("alphabet entry has a mark run");
        let mut decoder = Decoder::new(DIT_MS);
        let emitted = key_char(&mut decoder, &marks, 1_000);
        assert_eq!(emitted, vec![c], "round trip failed for {c}");
    }
}

/// Space has no mark run: it is not a keyable alphabet entry.
#[test]
fn space_has_no_mark_run() {
    assert!(char_to_marks(' ').is_none());
    assert!(char_to_marks('?').is_none());
}

/// The documented scenario: dit of 60 ms, (active, idle) pairs
/// (60, 60), (60, 400) key two dits. The sampling loop keeps observing the
/// silent line, and once the silence passes seven dit-units the decoder
/// emits `i`.
#[test]
fn scenario_two_dits_decode_to_i() {
    let mut decoder = Decoder::new(60);
    let mut emitted = Vec::new();
    let mut feed = |decoder: &mut Decoder, level: bool, t: u64| {
        if let Some(c) = decoder.push(level, t) {
            emitted.push((c, t));
        }
    };
    feed(&mut decoder, true, 0); // press
    feed(&mut decoder, false, 60); // release after 60 ms: dit
    feed(&mut decoder, true, 120); // press after 60 ms of silence
    feed(&mut decoder, false, 180); // release after 60 ms: dit
    // the line stays silent; the sampler ticks once per millisecond
    for t in 181..=700u64 {
        feed(&mut decoder, false, t);
    }
    assert_eq!(emitted.len(), 1);
    let (c, t) = emitted[0];
    assert_eq!(c, 'i');
    // seven dit-units after the last level change at 180 ms
    assert_eq!(t, 600);
    // the output event carries whatever shift state was sampled just then
    let shift_held = true;
    let (press, _) = make_reports(Event { character: c, shift_held }).expect("i has a scan code");
    assert_eq!(press.keycode, 0x0C);
    assert_eq!(press.modifier, SHIFT_MODIFIER);
}

/// An undefined mark sequence is discarded: no character, and the buffer
/// is clear for the next one.
#[test]
fn undefined_sequence_yields_nothing() {
    let mut decoder = Decoder::new(DIT_MS);
    // dit dah dit dah is no alphabet entry
    let emitted = key_char(
        &mut decoder,
        &[MorseValue::Dit, MorseValue::Dah, MorseValue::Dit, MorseValue::Dah],
        500,
    );
    assert!(emitted.is_empty());
    // the buffer was cleared: the next character decodes cleanly
    let emitted = key_char(&mut decoder, &[MorseValue::Dit], 10_000);
    assert_eq!(emitted, vec!['e']);
}

/// Overflow eviction: more marks than the buffer holds shift the oldest
/// marks out, so six dits followed by a break resolve as the five
/// youngest dits.
#[test]
fn overflow_evicts_oldest_mark() {
    let mut decoder = Decoder::new(DIT_MS);
    let dit = MorseValue::Dit;
    let emitted = key_char(&mut decoder, &[dit, dit, dit, dit, dit, dit], 500);
    assert_eq!(emitted, vec!['5']);
}

/// The dit/dah boundary: exactly two dit-units is still a dit, three is a
/// dah.
#[test]
fn mark_classification_boundary() {
    let mut dit_decoder = Decoder::new(60);
    dit_decoder.push(true, 0);
    dit_decoder.push(false, 120); // two units: dit
    assert_eq!(dit_decoder.push(true, 120 + 7 * 60), Some('e'));

    let mut dah_decoder = Decoder::new(60);
    dah_decoder.push(true, 0);
    dah_decoder.push(false, 180); // three units: dah
    assert_eq!(dah_decoder.push(true, 180 + 7 * 60), Some('t'));
}

/// A silent gap of six dit-units stays inside the character; only seven
/// ends it.
#[test]
fn six_unit_gap_does_not_break() {
    let mut decoder = Decoder::new(60);
    decoder.push(true, 0);
    decoder.push(false, 60); // dit
    decoder.push(true, 60 + 6 * 60); // six units of silence: same character
    decoder.push(false, 60 + 6 * 60 + 60); // dit
    let emitted = decoder.push(true, 60 + 6 * 60 + 60 + 7 * 60);
    assert_eq!(emitted, Some('i'));
}

/// The break is recognized on the press that starts the next character.
#[test]
fn break_on_next_press() {
    let mut decoder = Decoder::new(60);
    decoder.push(true, 0);
    assert_eq!(decoder.push(false, 180), None); // dah
    // the next press, 420 ms later, completes the pending 't'
    assert_eq!(decoder.push(true, 600), Some('t'));
    // and the new character continues normally
    assert_eq!(decoder.push(false, 660), None); // dit
    assert_eq!(decoder.push(true, 660 + 420), Some('e'));
}

/// A fresh decoder observing a silent line emits nothing, however long it
/// waits.
#[test]
fn idle_line_emits_nothing() {
    let mut decoder = Decoder::new(60);
    for t in 0..5_000u64 {
        assert_eq!(decoder.push(false, t), None);
    }
    assert_eq!(decoder.dit_ms(), 60);
}

/// Direct table lookups on a hand-built buffer.
#[test]
fn decode_buffer_table() {
    let (dit, dah) = (MorseValue::Dit, MorseValue::Dah);
    let (brk, empty) = (MorseValue::Break, MorseValue::Empty);
    let a = vec![dit, dah, brk, empty, empty, empty];
    assert_eq!(decode_buffer(&a), Some('a'));
    let zero = vec![dah, dah, dah, dah, dah, brk];
    assert_eq!(decode_buffer(&zero), Some('0'));
    let unknown = vec![dit, dah, dit, dah, brk, empty];
    assert_eq!(decode_buffer(&unknown), None);
    let no_break = vec![dit, dah, empty, empty, empty, empty];
    assert_eq!(decode_buffer(&no_break), None);
}
