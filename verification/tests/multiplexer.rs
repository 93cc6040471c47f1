use mini_kv::mux::{
    complete_envelope, drain_closed, interpret_reply, process_pending, Envelope, Outcome,
    PendingQueue, ReplySlot, SlotState, WireReply,
};
use mini_kv::protocol::Command;

fn get_envelope(tag: u64, key: &str) -> Envelope {
    Envelope { cmd: Command::Get { key: String::from(key) }, slot: ReplySlot::new(tag) }
}

fn put_envelope(tag: u64, key: &str, value: &[u8]) -> Envelope {
    Envelope {
        cmd: Command::Put { key: String::from(key), value: value.to_vec() },
        slot: ReplySlot::new(tag),
    }
}

#[test]
fn queue_is_fifo() {
    let mut q = PendingQueue::new(4);
    assert!(q.try_enqueue(get_envelope(1, "a")).is_ok());
    assert!(q.try_enqueue(get_envelope(2, "b")).is_ok());
    assert!(q.try_enqueue(get_envelope(3, "c")).is_ok());
    assert_eq!(q.len(), 3);
    assert_eq!(q.dequeue().unwrap().slot.tag, 1);
    assert_eq!(q.dequeue().unwrap().slot.tag, 2);
    assert_eq!(q.dequeue().unwrap().slot.tag, 3);
    assert!(q.dequeue().is_none());
}

#[test]
fn full_queue_hands_the_envelope_back() {
    let mut q = PendingQueue::new(1);
    assert!(q.try_enqueue(get_envelope(1, "a")).is_ok());
    let refused = q.try_enqueue(get_envelope(2, "b"));
    let back = refused.err().expect("a full queue must refuse");
    assert_eq!(back.slot.tag, 2);
    assert_eq!(back.slot.state, SlotState::Waiting);
    // Nothing was dropped: the first envelope is still first.
    assert_eq!(q.len(), 1);
    assert_eq!(q.dequeue().unwrap().slot.tag, 1);
}

#[test]
fn each_producer_gets_its_own_outcome() {
    let mut q = PendingQueue::new(8);
    q.try_enqueue(get_envelope(10, "a")).unwrap();
    q.try_enqueue(put_envelope(20, "b", b"vb")).unwrap();
    q.try_enqueue(get_envelope(30, "c")).unwrap();

    let replies = vec![WireReply::Value(b"va".to_vec()), WireReply::Ack, WireReply::Absent];
    let slots = process_pending(&mut q, replies);

    assert_eq!(q.len(), 0);
    assert_eq!(slots.len(), 3);
    assert_eq!(slots[0].tag, 10);
    assert_eq!(slots[0].state, SlotState::Filled(Outcome::Found(b"va".to_vec())));
    assert_eq!(slots[1].tag, 20);
    assert_eq!(slots[1].state, SlotState::Filled(Outcome::Confirmed));
    assert_eq!(slots[2].tag, 30);
    assert_eq!(slots[2].state, SlotState::Filled(Outcome::Missing));
}

#[test]
fn abandoned_producer_does_not_disturb_the_worker() {
    let mut q = PendingQueue::new(8);
    q.try_enqueue(get_envelope(1, "a")).unwrap();
    let mut abandoned = put_envelope(2, "b", b"x");
    abandoned.slot.abandon();
    q.try_enqueue(abandoned).unwrap();
    q.try_enqueue(get_envelope(3, "c")).unwrap();

    let replies = vec![WireReply::Absent, WireReply::Ack, WireReply::Value(b"vc".to_vec())];
    let slots = process_pending(&mut q, replies);

    // The abandoned slot is left alone; its neighbours get their own
    // outcomes, in order.
    assert_eq!(slots[0].state, SlotState::Filled(Outcome::Missing));
    assert_eq!(slots[1].state, SlotState::Abandoned);
    assert_eq!(slots[2].state, SlotState::Filled(Outcome::Found(b"vc".to_vec())));
}

#[test]
fn signal_after_abandon_is_a_noop() {
    let mut slot = ReplySlot::new(7);
    slot.abandon();
    let delivered = slot.signal(Outcome::Confirmed);
    assert!(!delivered);
    assert_eq!(slot.state, SlotState::Abandoned);
    assert_eq!(slot.take(), None);
}

#[test]
fn slot_is_written_once_and_read_once() {
    let mut slot = ReplySlot::new(5);
    assert!(slot.signal(Outcome::Missing));
    // A second write changes nothing.
    assert!(!slot.signal(Outcome::Confirmed));
    assert_eq!(slot.state, SlotState::Filled(Outcome::Missing));
    // Reading consumes the slot.
    assert_eq!(slot.take(), Some(Outcome::Missing));
}

#[test]
fn completing_one_envelope_correlates_by_slot() {
    let env = get_envelope(42, "k");
    let slot = complete_envelope(env, WireReply::Value(b"v".to_vec()));
    assert_eq!(slot.tag, 42);
    assert_eq!(slot.state, SlotState::Filled(Outcome::Found(b"v".to_vec())));
}

#[test]
fn mismatched_or_failed_replies_are_not_confirmed() {
    let get = Command::Get { key: String::from("k") };
    let put = Command::Put { key: String::from("k"), value: b"v".to_vec() };
    assert_eq!(interpret_reply(&get, WireReply::Ack), Outcome::NotConfirmed);
    assert_eq!(interpret_reply(&get, WireReply::Error), Outcome::NotConfirmed);
    assert_eq!(interpret_reply(&put, WireReply::Absent), Outcome::NotConfirmed);
    assert_eq!(interpret_reply(&put, WireReply::Value(b"v".to_vec())), Outcome::NotConfirmed);
    assert_eq!(interpret_reply(&put, WireReply::Error), Outcome::NotConfirmed);
}

#[test]
fn dead_connection_drains_everything_as_not_confirmed() {
    let mut q = PendingQueue::new(8);
    q.try_enqueue(get_envelope(1, "a")).unwrap();
    q.try_enqueue(put_envelope(2, "b", b"x")).unwrap();
    let slots = drain_closed(&mut q);
    assert_eq!(q.len(), 0);
    assert_eq!(slots.len(), 2);
    assert_eq!(slots[0].tag, 1);
    assert_eq!(slots[0].state, SlotState::Filled(Outcome::NotConfirmed));
    assert_eq!(slots[1].tag, 2);
    assert_eq!(slots[1].state, SlotState::Filled(Outcome::NotConfirmed));
}
