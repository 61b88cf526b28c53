use morse_kodeboard::pipeline::{
    make_reports, Event, EventQueue, KeyReport, QUEUE_CAPACITY, SHIFT_MODIFIER,
};

fn event(character: char, shift_held: bool) -> Event {
    Event { character, shift_held }
}

/// Events come out in exactly the order they went in.
#[test]
fn queue_is_fifo() {
    let mut queue = EventQueue::new();
    for c in ['h', 'i', '5'] {
        assert!(queue.try_enqueue(event(c, false)));
    }
    assert_eq!(queue.len(), 3);
    assert_eq!(queue.dequeue(), Some(event('h', false)));
    assert_eq!(queue.dequeue(), Some(event('i', false)));
    assert_eq!(queue.dequeue(), Some(event('5', false)));
    assert_eq!(queue.dequeue(), None);
}

/// An empty queue has nothing to deliver.
#[test]
fn empty_queue_dequeues_none() {
    let mut queue = EventQueue::new();
    assert_eq!(queue.len(), 0);
    assert_eq!(queue.dequeue(), None);
}

/// A full queue refuses the event and keeps everything it holds: the
/// producer suspends and retries instead of dropping a character. Once
/// the consumer drains a slot, production resumes.
#[test]
fn full_queue_refuses_without_dropping() {
    let mut queue = EventQueue::new();
    for i in 0..QUEUE_CAPACITY {
        let c = char::from(b'a' + (i % 26) as u8);
        assert!(queue.try_enqueue(event(c, false)));
    }
    assert_eq!(queue.len(), QUEUE_CAPACITY);
    assert!(!queue.try_enqueue(event('z', true)));
    assert_eq!(queue.len(), QUEUE_CAPACITY);
    // the consumer frees one slot: the oldest event, unharmed
    assert_eq!(queue.dequeue(), Some(event('a', false)));
    // the producer's retry now succeeds
    assert!(queue.try_enqueue(event('z', true)));
    assert_eq!(queue.len(), QUEUE_CAPACITY);
}

/// Sustained rapid keying against a slow consumer: with the producer
/// suspending (retrying) on a full queue, every character makes it
/// through, in order.
#[test]
fn stress_run_loses_nothing() {
    let mut queue = EventQueue::new();
    let mut produced: Vec<Event> = Vec::new();
    let mut consumed: Vec<Event> = Vec::new();
    let mut next: u32 = 0;
    let total: u32 = 1_000;
    while (consumed.len() as u32) < total {
        // a burst of rapid keying: produce until the queue pushes back
        while next < total {
            let c = char::from(b'a' + (next % 26) as u8);
            let e = event(c, next % 3 == 0);
            if queue.try_enqueue(e) {
                produced.push(e);
                next += 1;
            } else {
                break; // the producer suspends until a slot frees up
            }
        }
        // the paced consumer drains one event per tick
        if let Some(e) = queue.dequeue() {
            consumed.push(e);
        }
    }
    assert_eq!(produced.len(), consumed.len());
    assert_eq!(produced, consumed);
    assert_eq!(queue.len(), 0);
}

/// The press report carries the scan code and the shift modifier; the
/// release report clears both.
#[test]
fn reports_for_shifted_character() {
    let (press, release) = make_reports(event('a', true)).expect("supported character");
    assert_eq!(press, KeyReport { keycode: 0x04, modifier: SHIFT_MODIFIER });
    assert_eq!(release, KeyReport { keycode: 0, modifier: 0 });
}

/// Without shift the modifier stays clear.
#[test]
fn reports_without_shift() {
    let (press, release) = make_reports(event('5', false)).expect("supported character");
    assert_eq!(press, KeyReport { keycode: 0x22, modifier: 0 });
    assert_eq!(release, KeyReport { keycode: 0, modifier: 0 });
}

/// An unsupported character produces no reports at all.
#[test]
fn reports_for_unsupported_character() {
    assert!(make_reports(event('!', false)).is_none());
    assert!(make_reports(event('A', true)).is_none());
}
