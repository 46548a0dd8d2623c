use arirs::client::{
    step, Asterisk, ConnState, LoopAction, LoopInput, KEEPALIVE_INTERVAL_MS,
};
use arirs::event::Event;

#[test]
fn keepalive_tick_sends_one_ping_with_given_payload() {
    let payload = vec![1u8, 2, 3, 4];
    let (state, action) = step(ConnState::Open, LoopInput::Tick(payload.clone()));
    assert_eq!(state, ConnState::Open);
    match action {
        Some(LoopAction::SendPing(p)) => assert_eq!(p, payload),
        _ => panic!("expected exactly one ping"),
    }
}

#[test]
fn inbound_ping_gets_pong_with_identical_payload() {
    let payload = vec![9u8, 8, 7];
    let (state, action) = step(ConnState::Open, LoopInput::PingFrame(payload.clone()));
    assert_eq!(state, ConnState::Open);
    match action {
        Some(LoopAction::SendPong(p)) => assert_eq!(p, payload),
        _ => panic!("expected exactly one pong"),
    }
}

#[test]
fn pong_is_ignored() {
    let (state, action) = step(ConnState::Open, LoopInput::PongFrame(vec![1u8]));
    assert_eq!(state, ConnState::Open);
    assert!(action.is_none());
}

#[test]
fn consumer_drop_terminates_without_sending() {
    let (state, action) = step(ConnState::Open, LoopInput::ConsumerGone);
    assert_eq!(state, ConnState::Closing);
    assert!(action.is_none());

    // Once closing, nothing more is sent, whatever arrives.
    let (state, action) = step(ConnState::Closing, LoopInput::Tick(vec![1u8]));
    assert_eq!(state, ConnState::Closing);
    assert!(action.is_none());
    let (state, action) = step(ConnState::Closing, LoopInput::PingFrame(vec![2u8]));
    assert_eq!(state, ConnState::Closing);
    assert!(action.is_none());
}

#[test]
fn close_frame_and_stream_end_terminate() {
    let (state, _) = step(ConnState::Open, LoopInput::CloseFrame);
    assert_eq!(state, ConnState::Closing);
    let (state, _) = step(ConnState::Open, LoopInput::StreamEnded);
    assert_eq!(state, ConnState::Closing);
    let (state, _) = step(ConnState::Open, LoopInput::SendFailed);
    assert_eq!(state, ConnState::Closing);
}

#[test]
fn text_frame_is_delivered_decoded() {
    let frame = r#"{"type":"SomethingNew"}"#.to_string();
    let (state, action) = step(ConnState::Open, LoopInput::TextFrame(frame));
    assert_eq!(state, ConnState::Open);
    match action {
        Some(LoopAction::Deliver(Event::Unknown)) => {}
        _ => panic!("expected an unknown event delivered"),
    }
}

#[test]
fn bad_frame_is_reported_and_connection_stays_open() {
    let (state, action) = step(ConnState::Open, LoopInput::TextFrame("not json".to_string()));
    assert_eq!(state, ConnState::Open);
    match action {
        Some(LoopAction::ReportBadFrame) => {}
        _ => panic!("expected a bad-frame report"),
    }
}

#[test]
fn keepalive_interval_is_five_seconds() {
    assert_eq!(KEEPALIVE_INTERVAL_MS, 5000);
}

#[test]
fn connect_plan_builds_event_stream_url() {
    let plan = Asterisk::connect_plan("http://localhost:8088", "ari", "asterisk", "asterisk")
        .unwrap();
    assert_eq!(
        plan.ws_url,
        "ws://localhost:8088/ari/events?api_key=asterisk%3Aasterisk&app=ari&subscribeAll=true"
    );
    assert_eq!(plan.base.render(), "http://localhost:8088/ari");
}

#[test]
fn connect_plan_upgrades_https_to_wss() {
    let plan = Asterisk::connect_plan("https://pbx.example.com/", "app1", "u", "p").unwrap();
    assert!(plan.ws_url.starts_with("wss://pbx.example.com/ari/events?"));
}

#[test]
fn connect_plan_rejects_bad_scheme() {
    assert!(Asterisk::connect_plan("ws://localhost:8088", "ari", "u", "p").is_err());
}
