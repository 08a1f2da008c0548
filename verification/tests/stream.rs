use icedshell::niri::stream::{
    check_reply, event_stream_request, NiriStream, NiriStreamError, StreamAction,
    MAX_CONNECT_ATTEMPTS,
};

#[test]
fn request_line_is_the_encoded_event_stream_request() {
    assert_eq!(event_stream_request(), "\"EventStream\"\n");
    // the line the machine sends is exactly what the protocol crate encodes
    let encoded = serde_json::to_string(&niri_ipc::Request::EventStream).unwrap();
    assert_eq!(event_stream_request(), format!("{encoded}\n"));
}

#[test]
fn reply_acceptance() {
    let line = serde_json::to_string(&niri_ipc::Reply::Ok(niri_ipc::Response::Handled)).unwrap();
    assert!(check_reply(&line).is_ok());
}

#[test]
fn reply_refusal_carries_the_reason() {
    match check_reply("{\"Err\":\"event stream not supported\"}") {
        Err(NiriStreamError::NiriStreamRefused(reason)) => {
            assert_eq!(reason, "event stream not supported");
        }
        other => panic!("expected a refusal, got {other:?}"),
    }
}

#[test]
fn reply_garbage_is_a_decode_error() {
    match check_reply("not json at all") {
        Err(NiriStreamError::SerdeErr(_)) => (),
        other => panic!("expected a decode error, got {other:?}"),
    }
}

#[test]
fn backoff_gives_up_after_four_attempts() {
    let mut machine = NiriStream::start();
    let mut delays = Vec::new();
    loop {
        match machine.next_action() {
            StreamAction::GiveUp => break,
            StreamAction::Connect { delay_secs } => {
                delays.push(delay_secs);
                machine = machine.on_error();
            }
            StreamAction::ReadEvent => panic!("never connected"),
        }
    }
    assert_eq!(delays, vec![0, 2, 4, 8], "exactly four attempts, exponentially spaced");
    assert!(matches!(machine.next_action(), StreamAction::GiveUp), "no fifth attempt");
}

#[test]
fn counter_resets_only_after_an_event() {
    let machine = NiriStream::start();
    // connect succeeded and one event was read
    let machine = machine.on_event();
    assert!(matches!(machine.next_action(), StreamAction::ReadEvent));
    // the connection dies: the next wait starts at one failure, not zero
    let machine = machine.on_error();
    match machine.next_action() {
        StreamAction::Connect { delay_secs } => assert_eq!(delay_secs, 2),
        other => panic!("expected a reconnect, got {other:?}"),
    }
}

#[test]
fn max_attempts_is_four() {
    assert_eq!(MAX_CONNECT_ATTEMPTS, 4);
}
