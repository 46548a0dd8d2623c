use arirs::bridge::Bridge;
use arirs::channel::{Caller, Dialplan};
use arirs::json::parse_json;
use arirs::playback::Operation;
use arirs::recording::{LiveRecording, StoredRecording};
use arirs::variable::Variable;

#[test]
fn decodes_recording_handles() {
    let j = parse_json(r#"{"id":"r1","name":"call-recording"}"#).unwrap();
    let live = LiveRecording::from_json(&j).unwrap();
    assert_eq!(live.id, "r1");
    assert_eq!(live.name, "call-recording");

    let j = parse_json(r#"{"id":"r2","format":"wav"}"#).unwrap();
    let stored = StoredRecording::from_json(&j).unwrap();
    assert_eq!(stored.id, "r2");
    assert_eq!(stored.format, "wav");

    let j = parse_json(r#"{"name":"missing-id"}"#).unwrap();
    assert!(LiveRecording::from_json(&j).is_none());
}

#[test]
fn decodes_bridge_and_variable() {
    let j = parse_json(r#"{"id":"b1","technology":"simple_bridge"}"#).unwrap();
    assert_eq!(Bridge::from_json(&j).unwrap().id, "b1");

    let j = parse_json(r#"{"id":"v1"}"#).unwrap();
    assert_eq!(Variable::from_json(&j).unwrap().id, "v1");

    let j = parse_json("[]").unwrap();
    assert!(Bridge::from_json(&j).is_none());
}

#[test]
fn playback_operations_name_themselves() {
    assert_eq!(Operation::Restart.value(), "restart");
    assert_eq!(Operation::Pause.value(), "pause");
    assert_eq!(Operation::Unpause.value(), "unpause");
    assert_eq!(Operation::Reverse.value(), "reverse");
    assert_eq!(Operation::Forward.value(), "forward");
}

#[test]
fn nested_records_decode_individually() {
    let j = parse_json(r#"{"name":"Alice","number":"100"}"#).unwrap();
    let caller = Caller::from_json(&j).unwrap();
    assert_eq!(caller.name, "Alice");
    assert_eq!(caller.number, "100");

    let j = parse_json(
        r#"{"context":"default","exten":"s","priority":2,"app_name":"Stasis","app_data":"x"}"#,
    )
    .unwrap();
    let dialplan = Dialplan::from_json(&j).unwrap();
    assert_eq!(dialplan.priority, 2);

    // An out-of-range priority is a decode failure, not a wrapped value.
    let j = parse_json(
        r#"{"context":"default","exten":"s","priority":4294967296,"app_name":"a","app_data":"b"}"#,
    )
    .unwrap();
    assert!(Dialplan::from_json(&j).is_none());
}
