//! The server-side connection loop's decision step.
//!
//! The service runs one loop per accepted connection, every loop sharing
//! one `Store`. Each iteration reads one framed unit from the connection,
//! decodes it outside this crate, and hands the resulting event to
//! `conn_step`, which applies it to the store and says what to do next:
//! write a reply and keep looping, or stop this one loop. The step holds
//! the store's exclusive access only for its own duration, never across a
//! read or write of the connection.

use vstd::prelude::*;

use crate::protocol::{apply_command, Command, Response};
use crate::store::Store;

verus! {

/// What one read-and-decode of the connection came to.
#[derive(Debug, PartialEq)]
pub enum ConnEvent {
    /// A well-formed GET or SET arrived.
    Command(Command),
    /// The unit decoded to a command kind out of scope.
    Unsupported,
    /// The peer closed the connection cleanly.
    EndOfStream,
    /// Reading or decoding failed below the command layer.
    TransportError,
}

/// Why a connection loop stops, when it does not stop cleanly.
#[derive(Debug, PartialEq)]
pub enum FatalReason {
    /// An unsupported command: fatal for this one connection, never
    /// silently ignored.
    UnsupportedCommand,
    /// An I/O or framing failure on this one connection.
    Transport,
}

/// The loop's next move after one event.
#[derive(Debug, PartialEq)]
pub enum StepResult {
    /// Write this response back, then read the next request.
    Reply(Response),
    /// End of stream: stop this loop cleanly.
    Closed,
    /// Stop this loop; other connections and the store are untouched.
    Fatal(FatalReason),
}

/// Apply one connection event to the shared store and decide the loop's
/// next move. Only a `Put` changes the store; every failure leaves it
/// exactly as it was, so no event on one connection can disturb another.
pub fn conn_step(store: &mut Store, event: ConnEvent) -> (r: StepResult)
    requires
        old(store).wf(),
    ensures
        final(store).wf(),
        match event {
            ConnEvent::Command(c) => {
                &&& final(store)@ == apply_command(old(store)@, c)
                &&& match c {
                    Command::Get { key } => match r {
                        StepResult::Reply(Response::Value(v)) => old(store)@.contains_key(key@)
                            && v@ == old(store)@[key@],
                        StepResult::Reply(Response::Absent) => !old(store)@.contains_key(key@),
                        _ => false,
                    },
                    Command::Put { key, value } => r == StepResult::Reply(Response::Ack),
                }
            },
            ConnEvent::Unsupported => final(store)@ == old(store)@ && r == StepResult::Fatal(
                FatalReason::UnsupportedCommand,
            ),
            ConnEvent::EndOfStream => final(store)@ == old(store)@ && r == StepResult::Closed,
            ConnEvent::TransportError => final(store)@ == old(store)@ && r == StepResult::Fatal(
                FatalReason::Transport,
            ),
        },
{
    match event {
        ConnEvent::Command(c) => match c {
            Command::Get { key } => match store.get(&key) {
                Some(v) => StepResult::Reply(Response::Value(v)),
                None => StepResult::Reply(Response::Absent),
            },
            Command::Put { key, value } => {
                store.set(key, value);
                StepResult::Reply(Response::Ack)
            },
        },
        ConnEvent::Unsupported => StepResult::Fatal(FatalReason::UnsupportedCommand),
        ConnEvent::EndOfStream => StepResult::Closed,
        ConnEvent::TransportError => StepResult::Fatal(FatalReason::Transport),
    }
}

/// The store content after a sequence of events, from any connections, has
/// been stepped in order.
pub open spec fn store_after_events(m: Map<Seq<char>, Seq<u8>>, es: Seq<ConnEvent>) -> Map<
    Seq<char>,
    Seq<u8>,
>
    decreases es.len(),
{
    if es.len() == 0 {
        m
    } else {
        let prev = store_after_events(m, es.drop_last());
        match es.last() {
            ConnEvent::Command(c) => apply_command(prev, c),
            ConnEvent::Unsupported => prev,
            ConnEvent::EndOfStream => prev,
            ConnEvent::TransportError => prev,
        }
    }
}

/// Connection-loop isolation: an event that ends one connection's loop — a
/// malformed or unsupported command, a transport failure, or a clean close
/// — leaves the shared store exactly as if the event had never happened,
/// so every other connection observes the same results with or without it.
pub proof fn lemma_connection_isolation(m: Map<Seq<char>, Seq<u8>>, es: Seq<ConnEvent>, i: int)
    requires
        0 <= i < es.len(),
        !(es[i] matches ConnEvent::Command(_)),
    ensures
        store_after_events(m, es) == store_after_events(m, es.remove(i)),
    decreases es.len(),
{
    if i == es.len() - 1 {
        assert(es.remove(i) =~= es.drop_last());
    } else {
        lemma_connection_isolation(m, es.drop_last(), i);
        assert(es.remove(i).drop_last() =~= es.drop_last().remove(i));
        assert(es.remove(i).last() == es.last());
    }
}

} // verus!
