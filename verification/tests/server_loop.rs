use mini_kv::protocol::{Command, Response};
use mini_kv::server::{conn_step, ConnEvent, FatalReason, StepResult};
use mini_kv::store::Store;

#[test]
fn get_set_get_scenario() {
    let mut store = Store::new();

    let r = conn_step(
        &mut store,
        ConnEvent::Command(Command::Get { key: String::from("hello") }),
    );
    assert_eq!(r, StepResult::Reply(Response::Absent));

    let r = conn_step(
        &mut store,
        ConnEvent::Command(Command::Put {
            key: String::from("hello"),
            value: b"world".to_vec(),
        }),
    );
    assert_eq!(r, StepResult::Reply(Response::Ack));

    let r = conn_step(
        &mut store,
        ConnEvent::Command(Command::Get { key: String::from("hello") }),
    );
    assert_eq!(r, StepResult::Reply(Response::Value(b"world".to_vec())));
}

#[test]
fn unsupported_command_is_fatal_to_that_connection_only() {
    let mut store = Store::new();

    // Connection B stores a value first.
    let r = conn_step(
        &mut store,
        ConnEvent::Command(Command::Put { key: String::from("k"), value: b"v".to_vec() }),
    );
    assert_eq!(r, StepResult::Reply(Response::Ack));

    // Connection A sends something out of scope: only A's loop stops.
    let r = conn_step(&mut store, ConnEvent::Unsupported);
    assert_eq!(r, StepResult::Fatal(FatalReason::UnsupportedCommand));

    // Connection B is unaffected and still observes correct results.
    let r = conn_step(
        &mut store,
        ConnEvent::Command(Command::Get { key: String::from("k") }),
    );
    assert_eq!(r, StepResult::Reply(Response::Value(b"v".to_vec())));
    let r = conn_step(
        &mut store,
        ConnEvent::Command(Command::Put { key: String::from("k2"), value: b"v2".to_vec() }),
    );
    assert_eq!(r, StepResult::Reply(Response::Ack));
    let r = conn_step(
        &mut store,
        ConnEvent::Command(Command::Get { key: String::from("k2") }),
    );
    assert_eq!(r, StepResult::Reply(Response::Value(b"v2".to_vec())));
}

#[test]
fn end_of_stream_closes_cleanly_and_changes_nothing() {
    let mut store = Store::new();
    conn_step(
        &mut store,
        ConnEvent::Command(Command::Put { key: String::from("k"), value: b"v".to_vec() }),
    );
    let r = conn_step(&mut store, ConnEvent::EndOfStream);
    assert_eq!(r, StepResult::Closed);
    assert_eq!(store.get(&String::from("k")), Some(b"v".to_vec()));
}

#[test]
fn transport_failure_is_fatal_for_the_connection() {
    let mut store = Store::new();
    let r = conn_step(&mut store, ConnEvent::TransportError);
    assert_eq!(r, StepResult::Fatal(FatalReason::Transport));
}
