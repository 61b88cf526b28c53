//! Converts the on/off timing pattern of a single physical switch into
//! morse-code characters and prepares them for delivery as keystroke events.
//!
//! The pipeline has four stages, each a module of its own:
//! a debouncing filter that turns a noisy sampled input into a settled
//! boolean ([`debouncer`]), a timing-driven decoder that turns settled
//! level changes into characters ([`decoder`]), a pure lookup from a
//! character to an output scan code ([`key_mapping`]), and a bounded FIFO
//! queue plus report construction that paces delivery of decoded
//! characters as press/release pairs ([`pipeline`]). The [`keyer`] module
//! couples the first two into the state a sampling loop owns; the
//! [`morse`] module holds the fixed 36-entry alphabet they share.
//!
//! Timestamps are plain milliseconds from any monotonic clock; the caller
//! samples the switch at a fixed rate and hands each raw level to the
//! keyer together with the current time.

pub mod debouncer;
pub mod decoder;
pub mod key_mapping;
pub mod keyer;
pub mod morse;
pub mod pipeline;
