//! The sampling side of the pipeline: a debouncing filter feeding the
//! morse decoder.
//!
//! A [`MorseKeyer`] owns one [`DebouncedInput`] and one [`Decoder`]. Once
//! per sampling tick the raw switch level and the current time go in; the
//! debounced, settled level is handed to the decoder, and a completed
//! character comes out when one is ready.

use vstd::prelude::*;

verus! {

use crate::debouncer::{settle, shift_in, seed_register, DebouncedInput};
use crate::decoder::{initial_model, model_wf, push_spec, Decoder, DecoderModel};

/// The mathematical state of a [`MorseKeyer`].
#[verifier::ext_equal]
pub ghost struct KeyerModel {
    /// The debouncer's shift register.
    pub register: u16,
    /// The debouncer's settled state: the clean line level.
    pub settled: bool,
    /// The decoder's state.
    pub decoder: DecoderModel,
}

/// A debounced input in front of a morse decoder: the state owned by the
/// sampling loop.
pub struct MorseKeyer {
    input: DebouncedInput,
    decoder: Decoder,
}

impl View for MorseKeyer {
    type V = KeyerModel;

    closed spec fn view(&self) -> KeyerModel {
        KeyerModel {
            register: self.input.register(),
            settled: self.input.settled(),
            decoder: self.decoder@,
        }
    }
}

impl MorseKeyer {
    /// Well-formedness: the decoder's state is well-formed.
    pub open spec fn wf(&self) -> bool {
        model_wf(self@.decoder)
    }

    /// Creates a keyer for the given dit duration, with the debouncer
    /// pre-seeded to the initial observed line level.
    pub fn new(initial_level: bool, dit_ms: u64) -> (r: Self)
        requires
            dit_ms >= 1,
        ensures
            r.wf(),
            r@.register == seed_register(initial_level),
            r@.settled == initial_level,
            r@.decoder == initial_model(dit_ms as int),
    {
        MorseKeyer { input: DebouncedInput::new(initial_level), decoder: Decoder::new(dit_ms) }
    }

    /// One sampling tick: debounces the raw level, hands the settled level
    /// and the time to the decoder, and returns the completed character if
    /// this tick finished one.
    pub fn sample(&mut self, raw_level: bool, now_ms: u64) -> (r: Option<char>)
        requires
            old(self).wf(),
            old(self)@.decoder.last_change <= now_ms,
        ensures
            final(self).wf(),
            final(self)@.register == shift_in(old(self)@.register, raw_level),
            final(self)@.settled == settle(final(self)@.register, old(self)@.settled),
            final(self)@.decoder == push_spec(
                old(self)@.decoder,
                final(self)@.settled,
                now_ms as int,
            ).0,
            r == push_spec(old(self)@.decoder, final(self)@.settled, now_ms as int).1,
    {
        let settled = self.input.debounce(raw_level);
        self.decoder.push(settled.is_on, now_ms)
    }

    /// One sampling tick on which the input line could not be read: the
    /// last known settled level is held and handed to the decoder, so a
    /// pending character still completes after enough silence.
    pub fn hold_last(&mut self, now_ms: u64) -> (r: Option<char>)
        requires
            old(self).wf(),
            old(self)@.decoder.last_change <= now_ms,
        ensures
            final(self).wf(),
            final(self)@.register == old(self)@.register,
            final(self)@.settled == old(self)@.settled,
            final(self)@.decoder == push_spec(
                old(self)@.decoder,
                old(self)@.settled,
                now_ms as int,
            ).0,
            r == push_spec(old(self)@.decoder, old(self)@.settled, now_ms as int).1,
    {
        let held = self.input.current();
        self.decoder.push(held.is_on, now_ms)
    }
}

} // verus!
