//! The timing-driven morse decoder.
//!
//! A [`Decoder`] consumes the settled line level once per sampling tick,
//! together with the current time in milliseconds, and emits a character
//! whenever a full symbol run has been keyed. The line is `true` while the
//! switch is held (a mark in progress) and `false` while it is silent. All
//! thresholds are in dit-units: the elapsed time since the last level
//! change divided by the configured dit duration.
//!
//! * While the level does not change and the line is active, nothing
//!   happens.
//! * When an active period ends, its length classifies the mark: at most
//!   two dit-units is a [`Dit`](MorseValue::Dit), anything longer a
//!   [`Dah`](MorseValue::Dah).
//! * When a new active period begins after at least seven dit-units of
//!   silence, that silence was a character break: the buffered marks are
//!   resolved against the alphabet before the new mark is timed.
//! * When the line stays silent for at least seven dit-units while marks
//!   are buffered, a break is forced, so a character is completed even if
//!   the user stops keying entirely.
//!
//! On any break the buffer is resolved against [`spec_decode`]'s table: a
//! match emits the character, no match is discarded; either way the buffer
//! is cleared for the next character.

use vstd::arithmetic::div_mod::lemma_div_multiples_vanish;
use vstd::arithmetic::mul::{lemma_mul_is_distributive_add, lemma_mul_nonnegative};
use vstd::prelude::*;

verus! {

use crate::morse::{
    code_of, decode_buffer, empty_buffer, is_mark, is_morse_char, lemma_code_round_trip,
    lemma_code_shape, padded, spec_decode, MorseValue, BUFFER_SIZE,
};
use MorseValue::{Break, Dah, Dit, Empty};

/// The silent gap, in dit-units, at which a character is considered
/// finished.
pub const BREAK_UNITS: u64 = 7;

/// The longest active period, in dit-units, still classified as a dit.
pub const DIT_MAX_UNITS: u64 = 2;

/// The mathematical state of a [`Decoder`]: what its contracts and the
/// keying lemmas speak about.
#[verifier::ext_equal]
pub ghost struct DecoderModel {
    /// The configured dit duration in milliseconds.
    pub dit_ms: int,
    /// The symbol buffer: recorded marks, then unfilled slots.
    pub buffer: Seq<MorseValue>,
    /// Number of recorded marks at the front of the buffer.
    pub index: int,
    /// Whether the line was active at the last observation.
    pub is_high: bool,
    /// The time of the last level change, in milliseconds.
    pub last_change: int,
}

/// A well-formed decoder state: a positive dit duration, timestamps that
/// fit the clock's width, and a buffer of six slots holding `index` marks
/// followed by unfilled slots.
pub open spec fn model_wf(d: DecoderModel) -> bool {
    &&& 1 <= d.dit_ms <= u64::MAX
    &&& 0 <= d.last_change <= u64::MAX
    &&& d.buffer.len() == BUFFER_SIZE
    &&& 0 <= d.index <= BUFFER_SIZE
    &&& forall|i: int| 0 <= i < d.index ==> is_mark(#[trigger] d.buffer[i])
    &&& forall|i: int| d.index <= i < BUFFER_SIZE ==> d.buffer[i] == Empty
}

/// The state of a freshly constructed decoder: an empty buffer and a
/// silent line, with the clock's origin as the last change.
pub open spec fn initial_model(dit_ms: int) -> DecoderModel {
    DecoderModel { dit_ms, buffer: empty_buffer(), index: 0, is_high: false, last_change: 0 }
}

/// Elapsed dit-units between the last level change and `t`.
pub open spec fn elapsed_units(d: DecoderModel, t: int) -> int {
    (t - d.last_change) / d.dit_ms
}

/// The mark an active period of this many dit-units records.
pub open spec fn classify_mark(units: int) -> MorseValue {
    if units <= DIT_MAX_UNITS {
        Dit
    } else {
        Dah
    }
}

/// Buffer and mark count after one symbol enters. A full buffer evicts its
/// oldest symbol (shift left) and appends at the end; otherwise the symbol
/// fills the next slot.
pub open spec fn push_item(buffer: Seq<MorseValue>, index: int, v: MorseValue) -> (
    Seq<MorseValue>,
    int,
)
    recommends
        buffer.len() == BUFFER_SIZE,
        0 <= index <= BUFFER_SIZE,
{
    if index == BUFFER_SIZE {
        (buffer.subrange(1, BUFFER_SIZE as int).push(v), index)
    } else {
        (buffer.update(index, v), index + 1)
    }
}

/// State and emitted character when a break is recognized: a break symbol
/// enters the buffer, the result is resolved against the table, and the
/// buffer is cleared whether or not a character matched.
pub open spec fn break_step(d: DecoderModel) -> (DecoderModel, Option<char>) {
    let (with_break, _) = push_item(d.buffer, d.index, Break);
    (DecoderModel { buffer: empty_buffer(), index: 0, ..d }, spec_decode(with_break))
}

/// One observation of the settled line level at time `t`: the decoder's
/// complete transition function.
pub open spec fn push_spec(d: DecoderModel, currently_high: bool, t: int) -> (
    DecoderModel,
    Option<char>,
)
    recommends
        model_wf(d),
        d.last_change <= t,
{
    if d.is_high && currently_high {
        (d, None)
    } else {
        let units = elapsed_units(d, t);
        if d.is_high {
            // the active period ended: record the mark it keyed
            let (buffer, index) = push_item(d.buffer, d.index, classify_mark(units));
            (DecoderModel { buffer, index, is_high: false, last_change: t, ..d }, None)
        } else if currently_high {
            // a new active period begins: a long enough silence first
            // completes the pending character
            let armed = DecoderModel { is_high: true, last_change: t, ..d };
            if units < BREAK_UNITS {
                (armed, None)
            } else {
                break_step(armed)
            }
        } else {
            // still silent: force a break once marks are pending and the
            // silence has grown long; an idle line with no marks is a no-op
            if d.index == 0 || units < BREAK_UNITS {
                (d, None)
            } else {
                break_step(d)
            }
        }
    }
}

/// The transition function preserves well-formedness, keeps the configured
/// dit duration, and never moves the last-change time backwards or past
/// the observation time.
pub proof fn lemma_push_spec_wf(d: DecoderModel, currently_high: bool, t: int)
    requires
        model_wf(d),
        d.last_change <= t <= u64::MAX,
    ensures
        model_wf(push_spec(d, currently_high, t).0),
        push_spec(d, currently_high, t).0.dit_ms == d.dit_ms,
        d.last_change <= push_spec(d, currently_high, t).0.last_change <= t,
{
    let d2 = push_spec(d, currently_high, t).0;
    if d.is_high && !currently_high {
        let (buffer, index) = push_item(d.buffer, d.index, classify_mark(elapsed_units(d, t)));
        assert(forall|i: int| 0 <= i < index ==> is_mark(#[trigger] buffer[i]));
    }
    assert(model_wf(d2));
}

/// The characters one observation emits: none or one.
pub open spec fn opt_emitted(emitted: Option<char>) -> Seq<char> {
    match emitted {
        Some(c) => seq![c],
        None => Seq::empty(),
    }
}

/// Running the decoder over a whole sequence of timed level observations:
/// the final state and every character emitted along the way, in order.
pub open spec fn run_decoder(d: DecoderModel, inputs: Seq<(bool, int)>) -> (
    DecoderModel,
    Seq<char>,
)
    decreases inputs.len(),
{
    if inputs.len() == 0 {
        (d, Seq::empty())
    } else {
        let (d1, emitted) = push_spec(d, inputs[0].0, inputs[0].1);
        let (d2, rest) = run_decoder(d1, inputs.drop_first());
        (d2, opt_emitted(emitted) + rest)
    }
}

/// The timing-driven morse decoder.
pub struct Decoder {
    /// The length of a dit in milliseconds.
    dit_ms: u64,
    /// Holds the marks of the character being keyed, then unfilled slots.
    value_buffer: Vec<MorseValue>,
    /// The slot the next symbol will fill.
    index: usize,
    /// Whether the line was active at the last observation.
    is_high: bool,
    /// When the level last changed, in milliseconds.
    time_last_changed: u64,
}

impl View for Decoder {
    type V = DecoderModel;

    closed spec fn view(&self) -> DecoderModel {
        DecoderModel {
            dit_ms: self.dit_ms as int,
            buffer: self.value_buffer@,
            index: self.index as int,
            is_high: self.is_high,
            last_change: self.time_last_changed as int,
        }
    }
}

/// The three-way outcome of resolving the buffer: a completed character,
/// a buffer that matches no table entry, or a buffer with no break yet.
enum MorseDecodingResult {
    Char(char),
    Error,
    NotReady,
}

impl Decoder {
    /// Well-formedness of the decoder's state; constructors establish it
    /// and every observation preserves it.
    pub open spec fn wf(&self) -> bool {
        model_wf(self@)
    }

    /// The configured dit duration in milliseconds.
    pub fn dit_ms(&self) -> (r: u64)
        ensures
            r as int == self@.dit_ms,
    {
        self.dit_ms
    }

    /// Creates a decoder for the given dit duration, with an empty symbol
    /// buffer and the line presumed silent.
    pub fn new(dit_ms: u64) -> (r: Self)
        requires
            dit_ms >= 1,
        ensures
            r.wf(),
            r@ == initial_model(dit_ms as int),
    {
        let r = Self {
            dit_ms,
            value_buffer: vec![Empty, Empty, Empty, Empty, Empty, Empty],
            index: 0,
            is_high: false,
            time_last_changed: 0,
        };
        proof {
            assert(r@.buffer =~= empty_buffer());
            assert(r@ =~= initial_model(dit_ms as int));
        }
        r
    }

    /// Does the buffer hold a break symbol?
    fn has_break(&self) -> (r: bool)
        requires
            self@.buffer.len() == BUFFER_SIZE,
        ensures
            r == self@.buffer.contains(Break),
    {
        let mut i: usize = 0;
        while i < BUFFER_SIZE
            invariant
                0 <= i <= BUFFER_SIZE,
                self@.buffer.len() == BUFFER_SIZE,
                forall|j: int| 0 <= j < i ==> self@.buffer[j] != Break,
            decreases BUFFER_SIZE - i,
        {
            if self.value_buffer[i] == Break {
                proof {
                    assert(self@.buffer[i as int] == Break);
                }
                return true;
            }
            i += 1;
        }
        false
    }

    /// Resolves the buffer: not ready while no break has been recorded,
    /// otherwise the table's verdict on the buffered symbols.
    fn buffer_to_char(&self) -> (r: MorseDecodingResult)
        requires
            self@.buffer.len() == BUFFER_SIZE,
        ensures
            match r {
                MorseDecodingResult::Char(c) => self@.buffer.contains(Break) && spec_decode(
                    self@.buffer,
                ) == Some(c),
                MorseDecodingResult::Error => self@.buffer.contains(Break) && spec_decode(
                    self@.buffer,
                ) is None,
                MorseDecodingResult::NotReady => !self@.buffer.contains(Break),
            },
    {
        if !self.has_break() {
            return MorseDecodingResult::NotReady;
        }
        match decode_buffer(&self.value_buffer) {
            Some(c) => MorseDecodingResult::Char(c),
            None => MorseDecodingResult::Error,
        }
    }

    /// Clears the buffer, ready for the next character.
    fn reset_buffer(&mut self)
        requires
            old(self)@.buffer.len() == BUFFER_SIZE,
        ensures
            final(self)@ == (DecoderModel { buffer: empty_buffer(), index: 0, ..old(self)@ }),
    {
        self.index = 0;
        self.value_buffer = vec![Empty, Empty, Empty, Empty, Empty, Empty];
        proof {
            assert(self@.buffer =~= empty_buffer());
            assert(self@ =~= (DecoderModel { buffer: empty_buffer(), index: 0, ..old(self)@ }));
        }
    }

    /// Pushes one symbol into the buffer, evicting the oldest symbol when
    /// the buffer is already full.
    fn push_buffer_item(&mut self, value: MorseValue)
        requires
            old(self)@.buffer.len() == BUFFER_SIZE,
            0 <= old(self)@.index <= BUFFER_SIZE,
        ensures
            final(self)@ == (DecoderModel {
                buffer: push_item(old(self)@.buffer, old(self)@.index, value).0,
                index: push_item(old(self)@.buffer, old(self)@.index, value).1,
                ..old(self)@
            }),
    {
        if self.index == BUFFER_SIZE {
            // overflowing: drop the oldest symbol and append the newest
            self.value_buffer.remove(0);
            self.value_buffer.push(value);
            proof {
                assert(self@.buffer =~= old(self)@.buffer.subrange(1, BUFFER_SIZE as int).push(
                    value,
                ));
                assert(self@ =~= (DecoderModel {
                    buffer: push_item(old(self)@.buffer, old(self)@.index, value).0,
                    index: push_item(old(self)@.buffer, old(self)@.index, value).1,
                    ..old(self)@
                }));
            }
        } else {
            // still filling: record the symbol and advance the slot
            self.value_buffer[self.index] = value;
            self.index += 1;
            proof {
                assert(self@ =~= (DecoderModel {
                    buffer: push_item(old(self)@.buffer, old(self)@.index, value).0,
                    index: push_item(old(self)@.buffer, old(self)@.index, value).1,
                    ..old(self)@
                }));
            }
        }
    }

    /// Observes the settled line level at the given time and attempts to
    /// advance the decode. Returns `Some(c)` exactly when this observation
    /// completes a character, per the transition function [`push_spec`].
    ///
    /// A character is delineated by a silence of at least
    /// [`BREAK_UNITS`] dit-units, measured either when the next active
    /// period begins or while the line stays silent with marks pending.
    pub fn push(&mut self, currently_high: bool, change_time: u64) -> (r: Option<char>)
        requires
            old(self).wf(),
            old(self)@.last_change <= change_time,
        ensures
            final(self).wf(),
            final(self)@ == push_spec(old(self)@, currently_high, change_time as int).0,
            r == push_spec(old(self)@, currently_high, change_time as int).1,
    {
        proof {
            lemma_push_spec_wf(old(self)@, currently_high, change_time as int);
        }
        if self.is_high && currently_high {
            return None;
        }

        let elapsed_in_dits = (change_time - self.time_last_changed) / self.dit_ms;

        let was_high = self.is_high;
        self.is_high = currently_high;

        if was_high {
            // the active period ended: record the mark it keyed
            self.time_last_changed = change_time;
            self.push_buffer_item(
                if elapsed_in_dits <= DIT_MAX_UNITS {
                    Dit
                } else {
                    Dah
                },
            );
            return None;
        }

        if currently_high {
            // a new active period begins; a short silence was only the gap
            // between two marks of the same character
            self.time_last_changed = change_time;
            if elapsed_in_dits < BREAK_UNITS {
                return None;
            }
        } else {
            // still silent: idle with no marks, or not yet long enough
            if self.index == 0 || elapsed_in_dits < BREAK_UNITS {
                return None;
            }
        }

        // a character break: resolve the buffered symbols
        self.push_buffer_item(Break);

        match self.buffer_to_char() {
            MorseDecodingResult::Char(c) => {
                self.reset_buffer();
                Some(c)
            },
            MorseDecodingResult::Error => {
                self.reset_buffer();
                None
            },
            MorseDecodingResult::NotReady => {
                // unreachable: a break symbol was just recorded
                None
            },
        }
    }
}

/// A buffer holding exactly these marks, with the remaining slots
/// unfilled.
pub open spec fn buffer_with(marks: Seq<MorseValue>) -> Seq<MorseValue>
    recommends
        marks.len() <= BUFFER_SIZE,
{
    marks + Seq::new((BUFFER_SIZE - marks.len()) as nat, |i: int| Empty)
}

/// The observations that key the rest of a character once its first mark
/// has begun: each mark's release, the next mark's press, and finally the
/// press at `break_press` that ends the character. `times[j]` holds the
/// press and release times of mark `j`.
pub open spec fn body_inputs(times: Seq<(int, int)>, break_press: int) -> Seq<(bool, int)>
    recommends
        times.len() >= 1,
    decreases times.len(),
{
    if times.len() <= 1 {
        seq![(false, times[0].1), (true, break_press)]
    } else {
        seq![(false, times[0].1), (true, times[1].0)] + body_inputs(
            times.drop_first(),
            break_press,
        )
    }
}

/// The observations that key one whole character from a silent line:
/// press and release each mark at `times[j]`, then press again at
/// `break_press` to end the character.
pub open spec fn char_inputs(times: Seq<(int, int)>, break_press: int) -> Seq<(bool, int)>
    recommends
        times.len() >= 1,
{
    seq![(true, times[0].0)] + body_inputs(times, break_press)
}

/// Keys the marks of a character whose first mark has already begun at
/// `d.last_change`: every release records the expected mark, the short
/// gaps never break, and the final long gap resolves the whole buffer.
proof fn lemma_key_body(
    d: DecoderModel,
    done: Seq<MorseValue>,
    marks: Seq<MorseValue>,
    times: Seq<(int, int)>,
    break_press: int,
)
    requires
        d.is_high,
        d.buffer == buffer_with(done),
        d.index == done.len(),
        done.len() + marks.len() <= 5,
        marks.len() >= 1,
        times.len() == marks.len(),
        times[0].0 == d.last_change,
        forall|j: int| 0 <= j < times.len() ==> (#[trigger] times[j]).0 <= times[j].1,
        forall|j: int| 1 <= j < times.len() ==> times[j - 1].1 <= (#[trigger] times[j]).0,
        times[times.len() - 1].1 <= break_press,
        forall|j: int|
            0 <= j < times.len() ==> classify_mark(
                ((#[trigger] times[j]).1 - times[j].0) / d.dit_ms,
            ) == marks[j],
        forall|j: int|
            1 <= j < times.len() ==> ((#[trigger] times[j]).0 - times[j - 1].1) / d.dit_ms
                < BREAK_UNITS,
        (break_press - times[times.len() - 1].1) / d.dit_ms >= BREAK_UNITS,
    ensures
        run_decoder(d, body_inputs(times, break_press)).0 == (DecoderModel {
            buffer: empty_buffer(),
            index: 0,
            is_high: true,
            last_change: break_press,
            ..d
        }),
        run_decoder(d, body_inputs(times, break_press)).1 == opt_emitted(
            spec_decode(
                push_item(buffer_with(done + marks), done.len() + marks.len() as int, Break).0,
            ),
        ),
    decreases marks.len(),
{
    let ins = body_inputs(times, break_press);
    let release = times[0].1;
    let step1 = push_spec(d, false, release);
    let d1 = step1.0;
    assert(classify_mark((release - d.last_change) / d.dit_ms) == marks[0]);
    assert(d1.buffer == buffer_with(done).update(done.len() as int, marks[0]));
    assert(d1.buffer =~= buffer_with(done.push(marks[0])));
    assert(d1.index == done.len() + 1);
    assert(!d1.is_high && d1.last_change == release && d1.dit_ms == d.dit_ms);

    if marks.len() == 1 {
        assert(done + marks =~= done.push(marks[0]));
        let step2 = push_spec(d1, true, break_press);
        assert((break_press - release) / d.dit_ms >= BREAK_UNITS);
        let armed = DecoderModel { is_high: true, last_change: break_press, ..d1 };
        assert(step2 == break_step(armed));
        assert(step2.0 =~= (DecoderModel {
            buffer: empty_buffer(),
            index: 0,
            is_high: true,
            last_change: break_press,
            ..d
        }));
        assert(step2.1 == spec_decode(
            push_item(buffer_with(done + marks), done.len() + marks.len() as int, Break).0,
        ));

        assert(ins =~= seq![(false, release), (true, break_press)]);
        assert(ins.drop_first() =~= seq![(true, break_press)]);
        assert(ins.drop_first().drop_first() =~= Seq::<(bool, int)>::empty());
        assert(run_decoder(step2.0, ins.drop_first().drop_first()) == (
            step2.0,
            Seq::<char>::empty(),
        ));
        assert(run_decoder(d1, ins.drop_first()).0 == step2.0);
        assert(run_decoder(d1, ins.drop_first()).1 =~= opt_emitted(step2.1));
        assert(run_decoder(d, ins).0 == step2.0);
        assert(run_decoder(d, ins).1 =~= opt_emitted(step2.1));
    } else {
        let next_press = times[1].0;
        let step2 = push_spec(d1, true, next_press);
        assert((next_press - release) / d.dit_ms < BREAK_UNITS);
        let armed = DecoderModel { is_high: true, last_change: next_press, ..d1 };
        assert(step2 == (armed, None::<char>));

        assert(forall|j: int|
            0 <= j < times.len() - 1 ==> #[trigger] times.drop_first()[j] == times[j + 1]);
        assert(forall|j: int|
            0 <= j < marks.len() - 1 ==> #[trigger] marks.drop_first()[j] == marks[j + 1]);
        lemma_key_body(
            armed,
            done.push(marks[0]),
            marks.drop_first(),
            times.drop_first(),
            break_press,
        );
        let rest = body_inputs(times.drop_first(), break_press);
        let tail = run_decoder(armed, rest);
        assert(done.push(marks[0]) + marks.drop_first() =~= done + marks);

        assert(ins =~= seq![(false, release), (true, next_press)] + rest);
        assert(ins[0] == (false, release));
        assert(ins.drop_first() =~= seq![(true, next_press)] + rest);
        let mid = ins.drop_first();
        assert(mid[0] == (true, next_press));
        assert(mid.drop_first() =~= rest);
        assert(run_decoder(armed, mid.drop_first()) == tail);
        assert(run_decoder(d1, mid).0 == tail.0);
        assert(run_decoder(d1, mid).1 =~= tail.1);
        assert(run_decoder(d, ins).0 == tail.0);
        assert(run_decoder(d, ins).1 =~= tail.1);
    }
}

/// Keying any alphabet entry with timings inside the documented
/// thresholds emits exactly that character, and leaves the buffer empty.
///
/// From a silent line with an empty buffer, the character's marks are
/// pressed and released at `times[j]`: each active period classifies to
/// the entry's mark (at most two dit-units for a dit, more for a dah),
/// the silent gaps inside the character stay under seven dit-units, and
/// the press at `break_press` arrives after at least seven dit-units of
/// silence. The run emits the character exactly once, and the decoder is
/// left with an empty buffer, timing the mark that began at
/// `break_press`.
pub proof fn lemma_decode_character(
    d: DecoderModel,
    c: char,
    times: Seq<(int, int)>,
    break_press: int,
)
    requires
        model_wf(d),
        !d.is_high,
        d.index == 0,
        d.buffer == empty_buffer(),
        is_morse_char(c),
        times.len() == code_of(c).len(),
        d.last_change <= times[0].0,
        forall|j: int| 0 <= j < times.len() ==> (#[trigger] times[j]).0 <= times[j].1,
        forall|j: int| 1 <= j < times.len() ==> times[j - 1].1 <= (#[trigger] times[j]).0,
        times[times.len() - 1].1 <= break_press,
        forall|j: int|
            0 <= j < times.len() ==> classify_mark(
                ((#[trigger] times[j]).1 - times[j].0) / d.dit_ms,
            ) == code_of(c)[j],
        forall|j: int|
            1 <= j < times.len() ==> ((#[trigger] times[j]).0 - times[j - 1].1) / d.dit_ms
                < BREAK_UNITS,
        (break_press - times[times.len() - 1].1) / d.dit_ms >= BREAK_UNITS,
    ensures
        run_decoder(d, char_inputs(times, break_press)).0 == (DecoderModel {
            buffer: empty_buffer(),
            index: 0,
            is_high: true,
            last_change: break_press,
            ..d
        }),
        run_decoder(d, char_inputs(times, break_press)).1 == seq![c],
{
    lemma_code_shape(c);
    let marks = code_of(c);
    let first_press = times[0].0;
    let ins = char_inputs(times, break_press);

    // the first press arms the decoder; if the preceding silence was long,
    // the break it recognizes finds an empty buffer and changes nothing
    let step1 = push_spec(d, true, first_press);
    let armed = DecoderModel { is_high: true, last_change: first_press, ..d };
    if elapsed_units(d, first_press) >= BREAK_UNITS {
        assert(push_item(d.buffer, 0, Break).0 == empty_buffer().update(0, Break));
        assert(spec_decode(empty_buffer().update(0, Break)) is None);
        assert(step1.0 =~= armed);
        assert(step1.1 is None);
    } else {
        assert(step1 == (armed, None::<char>));
    }

    assert(armed.buffer =~= buffer_with(Seq::empty()));
    lemma_key_body(armed, Seq::empty(), marks, times, break_press);

    let rest = body_inputs(times, break_press);
    let tail = run_decoder(armed, rest);
    assert(Seq::empty() + marks =~= marks);
    assert(push_item(buffer_with(marks), marks.len() as int, Break).0 == buffer_with(
        marks,
    ).update(marks.len() as int, Break));
    assert(buffer_with(marks).update(marks.len() as int, Break) =~= padded(marks));
    lemma_code_round_trip(c);
    assert(tail.1 =~= seq![c]);

    assert(ins[0] == (true, first_press));
    assert(ins.drop_first() =~= rest);
    assert(run_decoder(step1.0, ins.drop_first()) == tail);
    assert(run_decoder(d, ins).0 == tail.0);
    assert(run_decoder(d, ins).1 =~= tail.1);
}

/// A break that finds buffered symbols matching no alphabet entry
/// discards them silently: no character is emitted, and the buffer is
/// cleared, whether the break comes from a new press after a long
/// silence or from sustained silence with marks pending.
pub proof fn lemma_undefined_sequence_discarded(d: DecoderModel, t: int)
    requires
        !d.is_high,
        d.index > 0,
        elapsed_units(d, t) >= BREAK_UNITS,
        spec_decode(push_item(d.buffer, d.index, Break).0) is None,
    ensures
        push_spec(d, true, t).0.buffer == empty_buffer(),
        push_spec(d, true, t).0.index == 0,
        push_spec(d, true, t).1 is None,
        push_spec(d, false, t).0.buffer == empty_buffer(),
        push_spec(d, false, t).0.index == 0,
        push_spec(d, false, t).1 is None,
{
}

/// Nominal keying length of a mark, in dit-units: one for a dit, three
/// for a dah.
pub open spec fn unit_length(v: MorseValue) -> int {
    if v == Dah {
        3
    } else {
        1
    }
}

/// Dit-units from the start of keying to the press of mark `j`, with one
/// dit-unit of silence between consecutive marks.
pub open spec fn mark_offset(marks: Seq<MorseValue>, j: int) -> int
    decreases j,
{
    if j <= 0 {
        0
    } else {
        mark_offset(marks, j - 1) + unit_length(marks[j - 1]) + 1
    }
}

/// Press and release times that key a mark run at exactly the configured
/// dit duration, starting at `start` milliseconds: each mark is held for
/// its nominal length, with one dit-unit of silence between marks.
pub open spec fn canonical_times(marks: Seq<MorseValue>, dit_ms: int, start: int) -> Seq<
    (int, int),
> {
    Seq::new(
        marks.len(),
        |j: int|
            (
                start + dit_ms * mark_offset(marks, j),
                start + dit_ms * (mark_offset(marks, j) + unit_length(marks[j])),
            ),
    )
}

/// The press that ends a canonically keyed character: exactly seven
/// dit-units after the last release.
pub open spec fn canonical_break(marks: Seq<MorseValue>, dit_ms: int, start: int) -> int {
    start + dit_ms * (mark_offset(marks, marks.len() as int) + 6)
}

/// Round trip: keying any alphabet entry's mark run at exactly the
/// configured dit duration always decodes back to that entry, whatever
/// the dit duration and wherever the keying starts.
pub proof fn lemma_round_trip(d: DecoderModel, c: char, start: int)
    requires
        model_wf(d),
        !d.is_high,
        d.index == 0,
        d.buffer == empty_buffer(),
        is_morse_char(c),
        d.last_change <= start,
    ensures
        ({
            let times = canonical_times(code_of(c), d.dit_ms, start);
            let break_press = canonical_break(code_of(c), d.dit_ms, start);
            &&& run_decoder(d, char_inputs(times, break_press)).0 == (DecoderModel {
                buffer: empty_buffer(),
                index: 0,
                is_high: true,
                last_change: break_press,
                ..d
            })
            &&& run_decoder(d, char_inputs(times, break_press)).1 == seq![c]
        }),
{
    lemma_code_shape(c);
    let marks = code_of(c);
    let dit = d.dit_ms;
    let times = canonical_times(marks, dit, start);
    let break_press = canonical_break(marks, dit, start);
    let k = marks.len() as int;

    assert(mark_offset(marks, 0) == 0);
    assert(times[0].0 == start);

    assert forall|j: int| 0 <= j < k implies (#[trigger] times[j]).0 <= times[j].1 by {
        lemma_mul_is_distributive_add(dit, mark_offset(marks, j), unit_length(marks[j]));
        lemma_mul_nonnegative(dit, unit_length(marks[j]));
    }
    assert forall|j: int| 1 <= j < k implies times[j - 1].1 <= (#[trigger] times[j]).0 by {
        lemma_mul_is_distributive_add(
            dit,
            mark_offset(marks, j - 1) + unit_length(marks[j - 1]),
            1,
        );
    }
    assert forall|j: int| 0 <= j < k implies classify_mark(
        ((#[trigger] times[j]).1 - times[j].0) / dit,
    ) == marks[j] by {
        let unit = unit_length(marks[j]);
        lemma_mul_is_distributive_add(dit, mark_offset(marks, j), unit);
        assert(times[j].1 - times[j].0 == dit * unit);
        lemma_div_multiples_vanish(unit, dit);
        assert(is_mark(marks[j]));
    }
    assert forall|j: int| 1 <= j < k implies ((#[trigger] times[j]).0 - times[j - 1].1) / dit
        < BREAK_UNITS by {
        lemma_mul_is_distributive_add(
            dit,
            mark_offset(marks, j - 1) + unit_length(marks[j - 1]),
            1,
        );
        assert(times[j].0 - times[j - 1].1 == dit * 1);
        lemma_div_multiples_vanish(1, dit);
    }

    let after_last = mark_offset(marks, k - 1) + unit_length(marks[k - 1]);
    assert(mark_offset(marks, k) == after_last + 1);
    lemma_mul_is_distributive_add(dit, after_last, 7);
    assert(break_press - times[k - 1].1 == dit * 7);
    lemma_div_multiples_vanish(7, dit);
    assert((break_press - times[k - 1].1) / dit >= BREAK_UNITS);
    assert(times[k - 1].1 <= break_press);

    lemma_decode_character(d, c, times, break_press);
}

} // verus!
