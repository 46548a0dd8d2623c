use arirs::params::{
    ChannelCreateParams, DialParams, Direction, OriginateChannelParams, OriginateParams,
    PlayMediaBaseParams, Reason, RecordParams, RecordingAction, RecordingTermination,
    SendDtmfParams,
};
use arirs::query::QueryPair;

fn pair_list(pairs: &[QueryPair]) -> Vec<(String, String)> {
    pairs.iter().map(|p| (p.key.clone(), p.value.clone())).collect()
}

#[test]
fn list_field_joins_with_commas_not_repeated_keys() {
    let params = PlayMediaBaseParams {
        media: vec!["alaw".to_string(), "ulaw".to_string()],
        lang: None,
        offset_ms: None,
        skip_ms: None,
    };
    let pairs = params.query_pairs();
    assert_eq!(
        pair_list(&pairs),
        vec![("media".to_string(), "alaw,ulaw".to_string())]
    );
}

#[test]
fn optional_fields_are_omitted() {
    let params = SendDtmfParams {
        dtmf: "1234".to_string(),
        between: None,
        duration: Some(250),
        before: None,
        after: None,
    };
    assert_eq!(
        pair_list(&params.query_pairs()),
        vec![
            ("dtmf".to_string(), "1234".to_string()),
            ("duration".to_string(), "250".to_string()),
        ]
    );
}

#[test]
fn reason_code_uses_numeric_key() {
    assert_eq!(
        pair_list(&Reason::Code(34).query_pairs()),
        vec![("reason_code".to_string(), "34".to_string())]
    );
    assert_eq!(
        pair_list(&Reason::Busy.query_pairs()),
        vec![("reason".to_string(), "busy".to_string())]
    );
    assert_eq!(
        pair_list(&Reason::AnsweredElsewhere.query_pairs()),
        vec![("reason".to_string(), "answered_elsewhere".to_string())]
    );
}

#[test]
fn direction_values() {
    assert_eq!(
        pair_list(&Direction::In.query_pairs()),
        vec![("direction".to_string(), "in".to_string())]
    );
    assert_eq!(
        pair_list(&Direction::Both.query_pairs()),
        vec![("direction".to_string(), "both".to_string())]
    );
}

#[test]
fn record_params_render_flags_and_enums() {
    let params = RecordParams {
        name: "r1".to_string(),
        format: "wav".to_string(),
        max_duration_seconds: Some(60),
        max_silence_seconds: None,
        if_exists: RecordingAction::Overwrite,
        beep: true,
        terminate_on: RecordingTermination::Octothorpe,
    };
    assert_eq!(
        pair_list(&params.query_pairs()),
        vec![
            ("name".to_string(), "r1".to_string()),
            ("format".to_string(), "wav".to_string()),
            ("maxDurationSeconds".to_string(), "60".to_string()),
            ("ifExists".to_string(), "overwrite".to_string()),
            ("beep".to_string(), "true".to_string()),
            ("terminateOn".to_string(), "#".to_string()),
        ]
    );
}

#[test]
fn originate_flattens_dialplan_params() {
    let params = OriginateChannelParams {
        endpoint: "PJSIP/bob".to_string(),
        params: OriginateParams::Extension {
            extension: "100".to_string(),
            context: Some("default".to_string()),
            priority: Some(-1),
            label: None,
        },
        caller_id: Some("Alice <100>".to_string()),
        timeout: Some(30),
        channel_id: None,
        other_channel_id: None,
        originator: None,
        formats: vec!["alaw".to_string(), "ulaw".to_string()],
    };
    assert_eq!(
        pair_list(&params.query_pairs()),
        vec![
            ("endpoint".to_string(), "PJSIP/bob".to_string()),
            ("extension".to_string(), "100".to_string()),
            ("context".to_string(), "default".to_string()),
            ("priority".to_string(), "-1".to_string()),
            ("callerId".to_string(), "Alice <100>".to_string()),
            ("timeout".to_string(), "30".to_string()),
            ("formats".to_string(), "alaw,ulaw".to_string()),
        ]
    );
}

#[test]
fn empty_lists_are_omitted() {
    let params = ChannelCreateParams {
        endpoint: "PJSIP/bob".to_string(),
        app: "my_app".to_string(),
        app_args: Vec::new(),
        channel_id: None,
        other_channel_id: None,
        originator: None,
        formats: Vec::new(),
    };
    assert_eq!(
        pair_list(&params.query_pairs()),
        vec![
            ("endpoint".to_string(), "PJSIP/bob".to_string()),
            ("app".to_string(), "my_app".to_string()),
        ]
    );
}

#[test]
fn dial_params_can_be_empty() {
    let params = DialParams { caller: None, timeout: None };
    assert!(params.query_pairs().is_empty());
}
