use arirs::channel::{Caller, Channel, Dialplan};
use arirs::device::DeviceState;
use arirs::error::AriError;
use arirs::event::{
    ChannelCreated, ChannelDestroyed, ChannelDialplan, ChannelDtmfReceived, ChannelHangupRequest,
    ChannelStateChange, ChannelVarset, DeviceStateChanged, Event, StasisEnd, StasisStart,
};

fn sample_channel() -> Channel {
    Channel {
        id: "1608094896.0".to_string(),
        name: "PJSIP/alice-00000001".to_string(),
        state: "Up".to_string(),
        protocol_id: "pj-1".to_string(),
        caller: Caller { name: "Alice".to_string(), number: "100".to_string() },
        connected: Caller { name: "Bob".to_string(), number: "101".to_string() },
        accountcode: "".to_string(),
        dialplan: Dialplan {
            context: "default".to_string(),
            exten: "s".to_string(),
            priority: 1,
            app_name: "Stasis".to_string(),
            app_data: "my_app".to_string(),
        },
        creationtime: "2024-01-01T00:00:00.000+0000".to_string(),
        language: "en".to_string(),
    }
}

fn roundtrip(event: Event) -> Event {
    let text = event.encode();
    Event::decode(&text).unwrap()
}

fn assert_same_encoding(a: &Event, b: &Event) {
    assert_eq!(a.encode(), b.encode());
}

#[test]
fn decode_unknown_type_is_total() {
    // Any valid JSON object with an unrecognized discriminator decodes to
    // the catch-all variant, never to a failure.
    let samples = [
        r#"{"type":"BridgeBlindTransfer"}"#,
        r#"{"type":"SomeFutureEvent","timestamp":"now","extra":{"deep":[1,2,3]}}"#,
        r#"{ "type" : "X" , "pi" : 3.25e1 , "big" : 123456789012345678901234567890 }"#,
    ];
    for text in samples {
        match Event::decode(text) {
            Ok(Event::Unknown) => {}
            _ => panic!("expected the catch-all variant for {text}"),
        }
    }
}

#[test]
fn decode_malformed_json_fails() {
    for text in ["", "{", "not json", r#"{"type":}"#, "[1,2", r#"{"type":"StasisEnd""#] {
        match Event::decode(text) {
            Err(AriError::Decode) => {}
            _ => panic!("expected a decode failure for {text:?}"),
        }
    }
}

#[test]
fn decode_without_discriminator_fails() {
    match Event::decode(r#"{"timestamp":"now"}"#) {
        Err(AriError::Decode) => {}
        _ => panic!("expected a decode failure without a type member"),
    }
}

#[test]
fn decode_known_type_with_missing_field_fails() {
    // A known discriminator with a malformed payload is a decode failure.
    match Event::decode(r#"{"type":"StasisEnd","timestamp":"now"}"#) {
        Err(AriError::Decode) => {}
        _ => panic!("expected a decode failure for a missing channel"),
    }
}

#[test]
fn decode_dtmf_event_fields() {
    let event = Event::ChannelDtmfReceived(ChannelDtmfReceived {
        timestamp: "2024-01-01T00:00:01.000+0000".to_string(),
        digit: "5".to_string(),
        duration_ms: 120,
        channel: sample_channel(),
        asterisk_id: "00:00:00:00:00:01".to_string(),
        application: "my_app".to_string(),
    });
    let text = event.encode();
    match Event::decode(&text).unwrap() {
        Event::ChannelDtmfReceived(x) => {
            assert_eq!(x.digit, "5");
            assert_eq!(x.duration_ms, 120);
            assert_eq!(x.channel.id, "1608094896.0");
            assert_eq!(x.channel.caller.name, "Alice");
            assert_eq!(x.channel.dialplan.priority, 1);
            assert_eq!(x.asterisk_id, "00:00:00:00:00:01");
            assert_eq!(x.application, "my_app");
        }
        _ => panic!("wrong variant"),
    }
}

#[test]
fn roundtrip_every_variant() {
    let ts = "2024-01-01T00:00:00.000+0000".to_string();
    let ast = "ast-1".to_string();
    let app = "my_app".to_string();
    let events = vec![
        Event::StasisStart(StasisStart {
            timestamp: ts.clone(),
            args: vec!["a".to_string(), "b".to_string()],
            channel: sample_channel(),
            asterisk_id: ast.clone(),
            application: app.clone(),
        }),
        Event::StasisEnd(StasisEnd {
            timestamp: ts.clone(),
            channel: sample_channel(),
            asterisk_id: ast.clone(),
            application: app.clone(),
        }),
        Event::ChannelCreated(ChannelCreated {
            timestamp: ts.clone(),
            channel: Some(sample_channel()),
            asterisk_id: ast.clone(),
            application: app.clone(),
        }),
        Event::ChannelCreated(ChannelCreated {
            timestamp: ts.clone(),
            channel: None,
            asterisk_id: ast.clone(),
            application: app.clone(),
        }),
        Event::ChannelDestroyed(ChannelDestroyed {
            timestamp: ts.clone(),
            cause: 16,
            cause_txt: "Normal Clearing".to_string(),
            channel: sample_channel(),
            asterisk_id: ast.clone(),
            application: app.clone(),
        }),
        Event::ChannelVarset(ChannelVarset {
            timestamp: ts.clone(),
            variable: "ENDPOINT".to_string(),
            value: "PJSIP/alice".to_string(),
            channel: None,
            asterisk_id: ast.clone(),
            application: app.clone(),
        }),
        Event::ChannelHangupRequest(ChannelHangupRequest {
            timestamp: ts.clone(),
            soft: Some(true),
            cause: 17,
            channel: sample_channel(),
            asterisk_id: ast.clone(),
            application: app.clone(),
        }),
        Event::ChannelDialplan(ChannelDialplan {
            timestamp: ts.clone(),
            dialplan_app: "Dial".to_string(),
            dialplan_app_data: "PJSIP/bob".to_string(),
            channel: sample_channel(),
            asterisk_id: ast.clone(),
            application: app.clone(),
        }),
        Event::ChannelStateChange(ChannelStateChange {
            timestamp: ts.clone(),
            channel: sample_channel(),
            asterisk_id: ast.clone(),
            application: app.clone(),
        }),
        Event::ChannelDtmfReceived(ChannelDtmfReceived {
            timestamp: ts.clone(),
            digit: "#".to_string(),
            duration_ms: 90,
            channel: sample_channel(),
            asterisk_id: ast.clone(),
            application: app.clone(),
        }),
        Event::DeviceStateChanged(DeviceStateChanged {
            timestamp: ts.clone(),
            device_state: DeviceState {
                name: "PJSIP/alice".to_string(),
                state: "NOT_INUSE".to_string(),
            },
            asterisk_id: ast.clone(),
            application: app.clone(),
        }),
        Event::Unknown,
    ];
    for event in events {
        let decoded = roundtrip(match &event {
            Event::Unknown => Event::Unknown,
            _ => roundtrip_clone(&event),
        });
        assert_same_encoding(&event, &decoded);
    }
}

// Events are plain data; rebuilding through the codec is the library's own
// equality witness, so cloning goes through encode/decode as well.
fn roundtrip_clone(event: &Event) -> Event {
    Event::decode(&event.encode()).unwrap()
}

#[test]
fn decode_accepts_extra_fields() {
    let text = r#"{"type":"DeviceStateChanged","timestamp":"t","device_state":{"name":"d","state":"BUSY","extra":1},"asterisk_id":"a","application":"p","unrelated":[true,null]}"#;
    match Event::decode(text).unwrap() {
        Event::DeviceStateChanged(x) => {
            assert_eq!(x.device_state.name, "d");
            assert_eq!(x.device_state.state, "BUSY");
        }
        _ => panic!("wrong variant"),
    }
}

#[test]
fn decode_agrees_with_reference_parser() {
    // serde_json accepts exactly what the library's own parser accepted
    // for these frames.
    let good = r#"{"type":"Whatever","n":-12,"s":"a\nbA"}"#;
    assert!(serde_json::from_str::<serde_json::Value>(good).is_ok());
    assert!(matches!(Event::decode(good), Ok(Event::Unknown)));

    let bad = r#"{"type":"Whatever",}"#;
    assert!(serde_json::from_str::<serde_json::Value>(bad).is_err());
    assert!(Event::decode(bad).is_err());
}
