//! The client-side command multiplexer: one worker owning the single
//! outbound connection, serving many independent producers.
//!
//! Producers never touch the connection. Each one builds an envelope — a
//! command plus a private single-use reply slot — and enqueues it on the
//! bounded FIFO pending queue, then awaits its own slot. The worker
//! dequeues envelopes strictly in order, performs one round trip per
//! envelope against the connection (the round trip itself happens outside
//! this crate; its result comes back as a `WireReply`), and signals the
//! envelope's slot best-effort: a producer that walked away makes the
//! signal a no-op, never an error.

use vstd::prelude::*;

use std::collections::VecDeque;

use crate::protocol::Command;

verus! {

/// What one round trip over the connection produced, as the wire layer
/// hands it back: one fully framed reply, or a transport or framing
/// failure.
#[derive(Debug, PartialEq)]
pub enum WireReply {
    /// The peer returned a value (reply to a GET).
    Value(Vec<u8>),
    /// The peer returned the absent marker (reply to a GET).
    Absent,
    /// The peer acknowledged (reply to a SET).
    Ack,
    /// The round trip failed: I/O error or a malformed frame.
    Error,
}

/// What a producer finds in its reply slot.
#[derive(Debug, PartialEq)]
pub enum Outcome {
    /// GET: the key was bound to this value.
    Found(Vec<u8>),
    /// GET: the key was unbound; an answer, not an error.
    Missing,
    /// SET: acknowledged by the peer.
    Confirmed,
    /// The round trip failed, or the reply did not match the command. The
    /// operation is unconfirmed — not known to have failed on the server.
    NotConfirmed,
}

/// The outcome owed to a producer whose command `c` drew the reply `w`: a
/// reply of the wrong shape counts as a failure of that one round trip.
pub open spec fn outcome_of(c: Command, w: WireReply) -> Outcome {
    match c {
        Command::Get { key } => match w {
            WireReply::Value(v) => Outcome::Found(v),
            WireReply::Absent => Outcome::Missing,
            WireReply::Ack => Outcome::NotConfirmed,
            WireReply::Error => Outcome::NotConfirmed,
        },
        Command::Put { key, value } => match w {
            WireReply::Ack => Outcome::Confirmed,
            WireReply::Value(v) => Outcome::NotConfirmed,
            WireReply::Absent => Outcome::NotConfirmed,
            WireReply::Error => Outcome::NotConfirmed,
        },
    }
}

/// Turn the wire layer's reply into the outcome owed to `c`'s producer.
pub fn interpret_reply(c: &Command, w: WireReply) -> (o: Outcome)
    ensures
        o == outcome_of(*c, w),
{
    match c {
        Command::Get { key } => match w {
            WireReply::Value(v) => Outcome::Found(v),
            WireReply::Absent => Outcome::Missing,
            WireReply::Ack => Outcome::NotConfirmed,
            WireReply::Error => Outcome::NotConfirmed,
        },
        Command::Put { key, value } => match w {
            WireReply::Ack => Outcome::Confirmed,
            WireReply::Value(v) => Outcome::NotConfirmed,
            WireReply::Absent => Outcome::NotConfirmed,
            WireReply::Error => Outcome::NotConfirmed,
        },
    }
}

/// Where a reply slot stands.
#[derive(Debug, PartialEq)]
pub enum SlotState {
    /// The producer is (or will be) awaiting the outcome.
    Waiting,
    /// The worker delivered this outcome; the producer has not read it yet.
    Filled(Outcome),
    /// The producer walked away before the worker signalled.
    Abandoned,
}

/// A single-use reply channel: written at most once by the worker, read at
/// most once by the producer that created it (reading consumes the slot).
/// The tag names the producer; it is never shared between two live slots.
#[derive(Debug)]
pub struct ReplySlot {
    pub tag: u64,
    pub state: SlotState,
}

/// A slot after a best-effort signal: filled if the producer was still
/// waiting, untouched otherwise.
pub open spec fn signaled(s: ReplySlot, out: Outcome) -> ReplySlot {
    if s.state == SlotState::Waiting {
        ReplySlot { tag: s.tag, state: SlotState::Filled(out) }
    } else {
        s
    }
}

impl ReplySlot {
    /// A fresh slot for one request, made by the producer right before it
    /// enqueues.
    pub fn new(tag: u64) -> (s: ReplySlot)
        ensures
            s.tag == tag,
            s.state == SlotState::Waiting,
    {
        ReplySlot { tag, state: SlotState::Waiting }
    }

    /// The worker's delivery: writes at most once, and treats a vanished
    /// receiver as success — it neither fails nor blocks.
    pub fn signal(&mut self, out: Outcome) -> (delivered: bool)
        ensures
            *final(self) == signaled(*old(self), out),
            delivered == (old(self).state == SlotState::Waiting),
    {
        match self.state {
            SlotState::Waiting => {
                self.state = SlotState::Filled(out);
                true
            },
            SlotState::Filled(_) => false,
            SlotState::Abandoned => false,
        }
    }

    /// The producer stops awaiting before the worker signals.
    pub fn abandon(&mut self)
        ensures
            final(self).tag == old(self).tag,
            old(self).state == SlotState::Waiting ==> final(self).state == SlotState::Abandoned,
            old(self).state != SlotState::Waiting ==> *final(self) == *old(self),
    {
        match self.state {
            SlotState::Waiting => {
                self.state = SlotState::Abandoned;
            },
            SlotState::Filled(_) => {
            },
            SlotState::Abandoned => {
            },
        }
    }

    /// The producer's await: yields the outcome exactly once, consuming
    /// the slot.
    pub fn take(self) -> (r: Option<Outcome>)
        ensures
            match self.state {
                SlotState::Filled(o) => r == Some(o),
                SlotState::Waiting => r == None::<Outcome>,
                SlotState::Abandoned => r == None::<Outcome>,
            },
    {
        match self.state {
            SlotState::Filled(o) => Some(o),
            SlotState::Waiting => None,
            SlotState::Abandoned => None,
        }
    }
}

/// One request in flight: the command and the private reply slot that
/// correlates the response back to its producer.
#[derive(Debug)]
pub struct Envelope {
    pub cmd: Command,
    pub slot: ReplySlot,
}

/// The bounded multi-producer FIFO queue between producers and the worker.
/// Envelopes leave in exactly the order they entered; a full queue turns a
/// producer away to wait (backpressure) rather than dropping its request.
pub struct PendingQueue {
    items: VecDeque<Envelope>,
    capacity: usize,
}

impl View for PendingQueue {
    type V = Seq<Envelope>;

    closed spec fn view(&self) -> Seq<Envelope> {
        self.items@
    }
}

impl PendingQueue {
    /// The bound the queue was created with.
    pub closed spec fn cap(&self) -> nat {
        self.capacity as nat
    }

    pub fn new(capacity: usize) -> (q: PendingQueue)
        requires
            capacity >= 1,
        ensures
            q@ == Seq::<Envelope>::empty(),
            q.cap() == capacity,
    {
        PendingQueue { items: VecDeque::new(), capacity }
    }

    /// How many envelopes are pending.
    pub fn len(&self) -> (n: usize)
        ensures
            n == self@.len(),
    {
        self.items.len()
    }

    /// A producer's enqueue. A full queue hands the envelope back so the
    /// producer can wait and retry: backpressure, never a drop.
    pub fn try_enqueue(&mut self, env: Envelope) -> (r: Result<(), Envelope>)
        ensures
            final(self).cap() == old(self).cap(),
            match r {
                Ok(()) => old(self)@.len() < old(self).cap() && final(self)@ == old(self)@.push(
                    env,
                ),
                Err(back) => old(self)@.len() >= old(self).cap() && back == env && final(self)@
                    == old(self)@,
            },
    {
        if self.items.len() < self.capacity {
            self.items.push_back(env);
            Ok(())
        } else {
            Err(env)
        }
    }

    /// The worker's dequeue: strictly the oldest envelope first.
    pub fn dequeue(&mut self) -> (r: Option<Envelope>)
        ensures
            final(self).cap() == old(self).cap(),
            match r {
                Some(env) => old(self)@.len() > 0 && env == old(self)@[0] && final(self)@ == old(
                    self,
                )@.drop_first(),
                None => old(self)@.len() == 0 && final(self)@ == old(self)@,
            },
    {
        let r = self.items.pop_front();
        proof {
            if old(self)@.len() > 0 {
                assert(self.items@ =~= old(self)@.drop_first());
            }
        }
        r
    }
}

/// The worker's handling of one dequeued envelope, after the wire layer
/// handed back `reply` for the one round trip it performed on the
/// envelope's behalf: interpret the reply for this command and signal this
/// envelope's slot, best-effort. The returned slot is the producer's.
pub fn complete_envelope(env: Envelope, reply: WireReply) -> (slot: ReplySlot)
    ensures
        slot == signaled(env.slot, outcome_of(env.cmd, reply)),
{
    let Envelope { cmd, mut slot } = env;
    let out = interpret_reply(&cmd, reply);
    let _ = slot.signal(out);
    slot
}

/// The slots as the worker leaves them after draining a pending sequence
/// in FIFO order, the i-th round trip's reply answering the i-th envelope.
pub open spec fn worker_run(envs: Seq<Envelope>, replies: Seq<WireReply>) -> Seq<ReplySlot> {
    Seq::new(envs.len(), |i: int| signaled(envs[i].slot, outcome_of(envs[i].cmd, replies[i])))
}

/// The worker's loop over everything pending, given the reply each round
/// trip drew: envelopes are taken strictly in enqueue order, the i-th
/// reply belongs to the i-th envelope, and each slot is signalled
/// best-effort. Returns the producers' slots in that same order.
pub fn process_pending(q: &mut PendingQueue, replies: Vec<WireReply>) -> (slots: Vec<ReplySlot>)
    requires
        replies@.len() == old(q)@.len(),
    ensures
        final(q)@ == Seq::<Envelope>::empty(),
        slots@ == worker_run(old(q)@, replies@),
{
    let ghost envs0 = q@;
    let ghost reps0 = replies@;
    let mut slots: Vec<ReplySlot> = Vec::new();
    let mut rest = replies;
    loop
        invariant
            q.cap() == old(q).cap(),
            reps0.len() == envs0.len(),
            slots@.len() + q@.len() == envs0.len(),
            rest@.len() == q@.len(),
            q@ == envs0.subrange(slots@.len() as int, envs0.len() as int),
            rest@ == reps0.subrange(slots@.len() as int, reps0.len() as int),
            forall|i: int|
                0 <= i < slots@.len() ==> slots@[i] == signaled(
                    envs0[i].slot,
                    outcome_of(envs0[i].cmd, reps0[i]),
                ),
        ensures
            q@.len() == 0,
            slots@.len() == envs0.len(),
            forall|i: int|
                0 <= i < slots@.len() ==> slots@[i] == signaled(
                    envs0[i].slot,
                    outcome_of(envs0[i].cmd, reps0[i]),
                ),
        decreases q@.len(),
    {
        let ghost done = slots@.len() as int;
        match q.dequeue() {
            Some(env) => {
                proof {
                    assert(env == envs0[done]);
                }
                let w = rest.remove(0);
                proof {
                    assert(w == reps0[done]);
                    assert(q@ =~= envs0.subrange(done + 1, envs0.len() as int));
                    assert(rest@ =~= reps0.subrange(done + 1, reps0.len() as int));
                }
                let s = complete_envelope(env, w);
                slots.push(s);
            },
            None => {
                break;
            },
        }
    }
    proof {
        assert(slots@ =~= worker_run(envs0, reps0));
    }
    slots
}

/// The worker's exit when the connection is found unrecoverably closed:
/// everything still pending is drained, each producer best-effort told
/// "not confirmed", in FIFO order, and nothing is left behind.
pub fn drain_closed(q: &mut PendingQueue) -> (slots: Vec<ReplySlot>)
    ensures
        final(q)@ == Seq::<Envelope>::empty(),
        slots@.len() == old(q)@.len(),
        forall|i: int|
            0 <= i < slots@.len() ==> slots@[i] == signaled(
                old(q)@[i].slot,
                Outcome::NotConfirmed,
            ),
{
    let ghost envs0 = q@;
    let mut slots: Vec<ReplySlot> = Vec::new();
    loop
        invariant
            slots@.len() + q@.len() == envs0.len(),
            q@ == envs0.subrange(slots@.len() as int, envs0.len() as int),
            forall|i: int|
                0 <= i < slots@.len() ==> slots@[i] == signaled(
                    envs0[i].slot,
                    Outcome::NotConfirmed,
                ),
        ensures
            q@.len() == 0,
            slots@.len() == envs0.len(),
            forall|i: int|
                0 <= i < slots@.len() ==> slots@[i] == signaled(
                    envs0[i].slot,
                    Outcome::NotConfirmed,
                ),
        decreases q@.len(),
    {
        let ghost done = slots@.len() as int;
        match q.dequeue() {
            Some(env) => {
                proof {
                    assert(env == envs0[done]);
                    assert(q@ =~= envs0.subrange(done + 1, envs0.len() as int));
                }
                let Envelope { cmd: _, mut slot } = env;
                let _ = slot.signal(Outcome::NotConfirmed);
                slots.push(slot);
            },
            None => {
                break;
            },
        }
    }
    slots
}

/// Multiplexer correctness: when every producer's tag is its own, the slot
/// the worker hands back at position `i` carries producer `i`'s tag and
/// exactly the outcome of producer `i`'s command under the i-th reply —
/// never another producer's — whatever the interleaving of producers was
/// before enqueueing fixed the FIFO order.
pub proof fn lemma_correlation(envs: Seq<Envelope>, replies: Seq<WireReply>, i: int)
    requires
        envs.len() == replies.len(),
        0 <= i < envs.len(),
    ensures
        worker_run(envs, replies)[i].tag == envs[i].slot.tag,
        envs[i].slot.state == SlotState::Waiting ==> worker_run(envs, replies)[i].state
            == SlotState::Filled(outcome_of(envs[i].cmd, replies[i])),
{
}

/// No misrouting: distinct tags stay distinct through a whole run, so a
/// producer that finds its own tag on a slot holds its own outcome and
/// nobody else's.
pub proof fn lemma_no_misrouting(envs: Seq<Envelope>, replies: Seq<WireReply>, i: int, j: int)
    requires
        envs.len() == replies.len(),
        0 <= i < envs.len(),
        0 <= j < envs.len(),
        i != j,
        envs[i].slot.tag != envs[j].slot.tag,
    ensures
        worker_run(envs, replies)[i].tag != worker_run(envs, replies)[j].tag,
{
}

/// An abandoned producer is invisible to everyone else: change one
/// envelope's slot state (say, its producer walked away) and every other
/// producer's slot comes out of the run exactly as before; the abandoned
/// slot itself is left untouched rather than failing the worker.
pub proof fn lemma_abandoned_is_isolated(
    envs1: Seq<Envelope>,
    envs2: Seq<Envelope>,
    replies: Seq<WireReply>,
    i: int,
)
    requires
        envs1.len() == replies.len(),
        envs2.len() == replies.len(),
        0 <= i < envs1.len(),
        forall|j: int| 0 <= j < envs1.len() && j != i ==> envs1[j] == envs2[j],
        envs1[i].cmd == envs2[i].cmd,
    ensures
        forall|j: int|
            0 <= j < envs1.len() && j != i ==> worker_run(envs1, replies)[j] == worker_run(
                envs2,
                replies,
            )[j],
        envs1[i].slot.state == SlotState::Abandoned ==> worker_run(envs1, replies)[i] == envs1[i].slot,
{
}

} // verus!
