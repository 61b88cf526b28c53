//! The event pipeline: a bounded FIFO queue of decoded characters and the
//! construction of the press/release reports that deliver them.
//!
//! The producer (the sampling loop) enqueues one [`Event`] per completed
//! character. The queue is bounded: when it is full, [`EventQueue::try_enqueue`]
//! refuses the event and leaves the queue unchanged, so a cooperative
//! producer suspends and retries rather than dropping a character. The
//! consumer (the paced delivery loop) dequeues strictly in insertion
//! order — no reordering, no coalescing — and turns each event into a
//! press report followed, after a short hold, by a release report.

use vstd::prelude::*;

verus! {

use crate::key_mapping::{char_to_hid_u8, spec_char_to_hid_u8};

/// Fixed capacity of the event queue.
pub const QUEUE_CAPACITY: usize = 32;

/// How long a key is held between its press and release reports, in
/// milliseconds.
pub const KEY_HOLD_MS: u64 = 10;

/// The modifier bit set while shift is held.
pub const SHIFT_MODIFIER: u8 = 0x02;

/// A decoded character paired with the shift state sampled when the
/// decode completed.
#[derive(Clone, Copy, Debug, PartialEq, Eq, Structural)]
pub struct Event {
    /// The decoded character.
    pub character: char,
    /// Whether the shift line was active when the character completed.
    pub shift_held: bool,
}

/// One keyboard output report: a single scan code slot and the modifier
/// bits.
#[derive(Clone, Copy, Debug, PartialEq, Eq, Structural)]
pub struct KeyReport {
    /// The scan code being pressed, or zero for none.
    pub keycode: u8,
    /// The modifier bits, or zero for none.
    pub modifier: u8,
}

/// A bounded FIFO queue of pending events: insertion order is emission
/// order.
pub struct EventQueue {
    items: Vec<Event>,
}

impl View for EventQueue {
    type V = Seq<Event>;

    closed spec fn view(&self) -> Seq<Event> {
        self.items@
    }
}

impl EventQueue {
    /// The queue never holds more than its fixed capacity.
    pub open spec fn wf(&self) -> bool {
        self@.len() <= QUEUE_CAPACITY
    }

    /// Creates an empty queue.
    pub fn new() -> (r: Self)
        ensures
            r@ == Seq::<Event>::empty(),
            r.wf(),
    {
        EventQueue { items: Vec::new() }
    }

    /// How many events are pending.
    pub fn len(&self) -> (r: usize)
        ensures
            r == self@.len(),
    {
        self.items.len()
    }

    /// Appends an event at the back, unless the queue is full. A refused
    /// event leaves the queue unchanged: the producer suspends and retries
    /// instead of dropping the character.
    pub fn try_enqueue(&mut self, event: Event) -> (accepted: bool)
        requires
            old(self).wf(),
        ensures
            final(self).wf(),
            accepted == (old(self)@.len() < QUEUE_CAPACITY),
            accepted ==> final(self)@ == old(self)@.push(event),
            !accepted ==> final(self)@ == old(self)@,
    {
        if self.items.len() < QUEUE_CAPACITY {
            self.items.push(event);
            true
        } else {
            false
        }
    }

    /// Removes and returns the oldest pending event, or `None` when the
    /// queue is empty.
    pub fn dequeue(&mut self) -> (r: Option<Event>)
        requires
            old(self).wf(),
        ensures
            final(self).wf(),
            old(self)@.len() == 0 ==> r is None && final(self)@ == old(self)@,
            old(self)@.len() > 0 ==> r == Some(old(self)@[0]) && final(self)@ == old(
                self,
            )@.drop_first(),
    {
        if self.items.len() == 0 {
            None
        } else {
            let event = self.items.remove(0);
            proof {
                assert(self@ =~= old(self)@.drop_first());
            }
            Some(event)
        }
    }
}

/// Builds the two output reports that deliver one event: a press report
/// carrying the character's scan code with the shift modifier if shift
/// was held, and a release report clearing both. `None` exactly when the
/// character has no scan code; such an event is skipped silently.
pub fn make_reports(event: Event) -> (r: Option<(KeyReport, KeyReport)>)
    ensures
        match r {
            Some(pair) => {
                &&& spec_char_to_hid_u8(event.character) == Some(pair.0.keycode)
                &&& pair.0.modifier == (if event.shift_held {
                    SHIFT_MODIFIER
                } else {
                    0u8
                })
                &&& pair.1 == (KeyReport { keycode: 0, modifier: 0 })
            },
            None => spec_char_to_hid_u8(event.character) is None,
        },
{
    match char_to_hid_u8(event.character) {
        Some(code) => {
            let press = KeyReport {
                keycode: code,
                modifier: if event.shift_held {
                    SHIFT_MODIFIER
                } else {
                    0
                },
            };
            let release = KeyReport { keycode: 0, modifier: 0 };
            Some((press, release))
        },
        None => None,
    }
}

} // verus!
