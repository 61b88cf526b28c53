//! Firmware debouncing of a sampled digital input.
//!
//! A [`DebouncedInput`] keeps the last sixteen raw samples in a shift
//! register and a settled boolean state. The settled state flips to `true`
//! only when the register is all-on, and to `false` only when it is
//! all-off; a mixed register leaves the previous settled state unchanged,
//! so transient chatter during a transition window is suppressed.

use vstd::arithmetic::div_mod::{
    lemma_fundamental_div_mod, lemma_mod_mod, lemma_mod_multiples_vanish, lemma_small_mod,
};
use vstd::arithmetic::mul::lemma_mul_is_associative;
use vstd::arithmetic::power2::{
    lemma2_to64, lemma_pow2_adds, lemma_pow2_pos, lemma_pow2_strictly_increases,
    lemma_pow2_unfold,
};
use vstd::prelude::*;

verus! {

use vstd::arithmetic::power2::pow2;

/// Register value when the last sixteen samples were all on.
pub const ALL_ON: u16 = 0xFFFF;

/// Register value when the last sixteen samples were all off.
pub const ALL_OFF: u16 = 0;

/// Number of consecutive identical samples needed before the settled state
/// can flip: the width of the shift register.
pub const DEBOUNCE_DEPTH: usize = 16;

/// A debounced input: the settled state changes only after
/// [`DEBOUNCE_DEPTH`] consecutive samples agree.
#[derive(Clone, Copy)]
pub struct DebouncedInput {
    /// Shift register holding the last sixteen raw samples, newest in the
    /// lowest bit.
    memory: u16,
    /// The settled state after the most recent sample.
    previous_state: bool,
}

/// Returned by [`DebouncedInput::debounce`]: the settled state after the
/// sample, and whether this sample changed it.
pub struct DebounceResult {
    /// Did the settled state change with this sample?
    pub is_changed: bool,
    /// The settled state after this sample.
    pub is_on: bool,
}

/// The register after one raw sample is shifted in: the oldest bit drops
/// off the top, the new sample enters at the bottom.
pub open spec fn shift_in(memory: u16, sample: bool) -> u16 {
    ((2 * (memory as int) + (if sample { 1int } else { 0int })) % 0x10000) as u16
}

/// The settled state after a shift: all-on forces `true`, all-off forces
/// `false`, and a mixed register keeps the previous settled state.
pub open spec fn settle(memory: u16, previous: bool) -> bool {
    if memory == ALL_ON {
        true
    } else if memory == ALL_OFF {
        false
    } else {
        previous
    }
}

/// The register the constructor seeds for an initial observed level.
pub open spec fn seed_register(is_on: bool) -> u16 {
    if is_on {
        ALL_ON
    } else {
        ALL_OFF
    }
}

/// Register and settled state after a whole sequence of raw samples.
pub open spec fn run_debounce(memory: u16, settled: bool, samples: Seq<bool>) -> (u16, bool)
    decreases samples.len(),
{
    if samples.len() == 0 {
        (memory, settled)
    } else {
        let shifted = shift_in(memory, samples[0]);
        run_debounce(shifted, settle(shifted, settled), samples.drop_first())
    }
}

/// The settled state after a freshly constructed input has observed a
/// sequence of raw samples.
pub open spec fn settled_after(initial: bool, samples: Seq<bool>) -> bool {
    run_debounce(seed_register(initial), initial, samples).1
}

impl DebouncedInput {
    /// The current shift register contents.
    pub closed spec fn register(self) -> u16 {
        self.memory
    }

    /// The current settled state.
    pub closed spec fn settled(self) -> bool {
        self.previous_state
    }

    /// Creates a debounced input whose register is pre-seeded to match the
    /// initial observed level, so the first fifteen samples cannot
    /// spuriously flip the settled state.
    pub fn new(is_on: bool) -> (r: Self)
        ensures
            r.register() == seed_register(is_on),
            r.settled() == is_on,
    {
        Self { memory: if is_on { ALL_ON } else { ALL_OFF }, previous_state: is_on }
    }

    /// The settled state without observing a new sample, for ticks on
    /// which the input line could not be read: the last known settled
    /// state is held, and nothing changes.
    pub fn current(&self) -> (r: DebounceResult)
        ensures
            r.is_on == self.settled(),
            !r.is_changed,
    {
        DebounceResult { is_changed: false, is_on: self.previous_state }
    }

    /// Shifts one raw sample into the register and settles the state:
    /// `true` after sixteen consecutive on samples, `false` after sixteen
    /// consecutive off samples, otherwise unchanged.
    pub fn debounce(&mut self, is_on: bool) -> (r: DebounceResult)
        ensures
            final(self).register() == shift_in(old(self).register(), is_on),
            final(self).settled() == settle(final(self).register(), old(self).settled()),
            r.is_on == final(self).settled(),
            r.is_changed == (final(self).settled() != old(self).settled()),
    {
        let wide: u32 = (self.memory as u32) * 2 + if is_on { 1 } else { 0 };
        self.memory = (wide % 0x10000) as u16;

        let new_state = if self.memory == ALL_ON {
            true
        } else if self.memory == ALL_OFF {
            false
        } else {
            self.previous_state
        };

        let is_changed = new_state != self.previous_state;
        self.previous_state = new_state;

        DebounceResult { is_changed, is_on: new_state }
    }
}

/// `pow2(n + 1) == 2 * pow2(n)`, with the bounds needed while a sixteen
/// bit register fills.
proof fn lemma_pow2_facts(n: nat)
    requires
        n <= 15,
    ensures
        pow2((n + 1) as nat) == 2 * pow2(n),
        1 <= pow2(n) <= 0x8000,
        pow2(16) == 0x10000,
{
    lemma_pow2_unfold((n + 1) as nat);
    lemma2_to64();
    if n < 15 {
        lemma_pow2_strictly_increases(n, 15);
    }
    lemma_pow2_pos(n);
}

/// While fewer than sixteen samples have entered since the register was
/// unanimous for `settled`, the register stays too close to that unanimous
/// value to reach the opposite one, so the settled state cannot move.
proof fn lemma_hysteresis_run(memory: u16, settled: bool, samples: Seq<bool>, depth: nat)
    requires
        depth + samples.len() <= 15,
        if settled {
            memory as int >= 0x10000 - pow2(depth)
        } else {
            memory as int <= pow2(depth) - 1
        },
    ensures
        run_debounce(memory, settled, samples).1 == settled,
    decreases samples.len(),
{
    if samples.len() > 0 {
        lemma_pow2_facts(depth);
        lemma_pow2_facts((depth + 1) as nat);
        let bit: int = if samples[0] { 1 } else { 0 };
        let wide: int = 2 * (memory as int) + bit;
        let shifted = shift_in(memory, samples[0]);
        if settled {
            lemma_mod_multiples_vanish(1, wide - 0x10000, 0x10000);
            lemma_small_mod((wide - 0x10000) as nat, 0x10000);
            assert(shifted as int >= 0x10000 - pow2((depth + 1) as nat));
        } else {
            lemma_small_mod(wide as nat, 0x10000);
            assert(shifted as int <= pow2((depth + 1) as nat) - 1);
        }
        assert(settle(shifted, settled) == settled);
        lemma_hysteresis_run(shifted, settled, samples.drop_first(), depth + 1);
    }
}

/// Pure hysteresis: any sequence of fewer samples than the debounce depth
/// leaves the settled state of a freshly constructed input unchanged. In
/// particular no mixed (not unanimous) short burst can flip it.
pub proof fn lemma_debounce_hysteresis(initial: bool, samples: Seq<bool>)
    requires
        samples.len() < 16,
    ensures
        settled_after(initial, samples) == initial,
{
    lemma2_to64();
    lemma_hysteresis_run(seed_register(initial), initial, samples, 0);
}

/// A full depth of unanimous samples drives any register, bit by bit, to
/// the unanimous value: with the low `depth` bits already unanimous and
/// `16 - depth` unanimous samples still to come, the run ends with the
/// register all-`value` and the settled state at `value`.
proof fn lemma_unanimous_fill(
    memory: u16,
    settled: bool,
    value: bool,
    samples: Seq<bool>,
    depth: nat,
)
    requires
        depth + samples.len() == 16,
        samples.len() >= 1,
        forall|i: int| 0 <= i < samples.len() ==> samples[i] == value,
        memory as int % (pow2(depth) as int) == if value {
            pow2(depth) - 1
        } else {
            0
        },
    ensures
        run_debounce(memory, settled, samples) == (seed_register(value), value),
    decreases samples.len(),
{
    lemma_pow2_facts(depth);
    lemma_pow2_pos((15 - depth) as nat);
    let bit: int = if value { 1 } else { 0 };
    let m = memory as int;
    let low = pow2(depth) as int;
    lemma_fundamental_div_mod(m, low);
    let quotient = m / low;
    let remainder = m % low;
    let wide: int = 2 * m + bit;
    lemma_mul_is_associative(2, low, quotient);
    assert(wide == pow2((depth + 1) as nat) * quotient + (2 * remainder + bit));

    let shifted = shift_in(memory, samples[0]);
    lemma_pow2_adds((depth + 1) as nat, (15 - depth) as nat);
    lemma_mod_mod(wide, pow2((depth + 1) as nat) as int, pow2((15 - depth) as nat) as int);
    lemma_mod_multiples_vanish(quotient, 2 * remainder + bit, pow2((depth + 1) as nat) as int);
    lemma_small_mod((2 * remainder + bit) as nat, pow2((depth + 1) as nat));
    assert(shifted as int % (pow2((depth + 1) as nat) as int) == if value {
        pow2((depth + 1) as nat) - 1
    } else {
        0
    });

    if samples.len() == 1 {
        lemma_small_mod(shifted as nat, pow2(16));
        assert(shifted == seed_register(value));
        assert(settle(shifted, settled) == value);
        assert(run_debounce(shifted, value, samples.drop_first()) == (shifted, value));
    } else {
        lemma_unanimous_fill(
            shifted,
            settle(shifted, settled),
            value,
            samples.drop_first(),
            depth + 1,
        );
    }
}

/// Running a debouncer over concatenated sample sequences equals running
/// it over the first and continuing over the second.
proof fn lemma_run_append(memory: u16, settled: bool, a: Seq<bool>, b: Seq<bool>)
    ensures
        run_debounce(memory, settled, a + b) == run_debounce(
            run_debounce(memory, settled, a).0,
            run_debounce(memory, settled, a).1,
            b,
        ),
    decreases a.len(),
{
    if a.len() == 0 {
        assert(a + b =~= b);
    } else {
        let shifted = shift_in(memory, a[0]);
        assert((a + b).drop_first() =~= a.drop_first() + b);
        lemma_run_append(shifted, settle(shifted, settled), a.drop_first(), b);
    }
}

/// A sample sequence whose last sixteen samples are unanimous settles at
/// the unanimous value, whatever came before them and whatever the
/// initial level was. In particular any sequence that is unanimous for at
/// least the debounce depth settles at its unanimous value.
pub proof fn lemma_debounce_unanimous(initial: bool, samples: Seq<bool>, value: bool)
    requires
        samples.len() >= 16,
        forall|i: int| samples.len() - 16 <= i < samples.len() ==> samples[i] == value,
    ensures
        settled_after(initial, samples) == value,
{
    lemma2_to64();
    let cut = samples.len() - 16;
    let prefix = samples.subrange(0, cut as int);
    let tail = samples.subrange(cut as int, samples.len() as int);
    assert(samples =~= prefix + tail);
    lemma_run_append(seed_register(initial), initial, prefix, tail);
    let reached = run_debounce(seed_register(initial), initial, prefix);
    lemma_unanimous_fill(reached.0, reached.1, value, tail, 0);
}

} // verus!
