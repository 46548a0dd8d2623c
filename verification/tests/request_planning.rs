use arirs::baseurl::BaseUrl;
use arirs::error::AriError;
use arirs::params::{DialParams, Direction, OriginateChannelParams, OriginateParams, Reason};
use arirs::query::QueryPair;
use arirs::request_client::{check_status, parse_channel, parse_channels, parse_playback,
    variables_body, HttpMethod, RequestClient};

fn client() -> RequestClient {
    RequestClient::new(
        BaseUrl::parse("http://localhost:8088/ari").unwrap(),
        "asterisk",
        "asterisk",
    )
}

#[test]
fn answer_plan_is_exact() {
    let plan = client().answer(&"chan-1".to_string()).unwrap();
    assert_eq!(plan.method, HttpMethod::Post);
    assert_eq!(
        plan.url,
        "http://localhost:8088/ari/channels/chan-1/answer?api_key=asterisk%3Aasterisk"
    );
    assert!(plan.body.is_none());
}

#[test]
fn hangup_plan_carries_reason() {
    let plan = client().hangup(&"c1".to_string(), &Reason::Busy).unwrap();
    assert_eq!(plan.method, HttpMethod::Delete);
    assert_eq!(
        plan.url,
        "http://localhost:8088/ari/channels/c1?api_key=asterisk%3Aasterisk&reason=busy"
    );
}

#[test]
fn mute_and_unmute_differ_only_in_method() {
    let c = client();
    let m = c.mute(&"c1".to_string(), &Direction::In).unwrap();
    let u = c.unmute(&"c1".to_string(), &Direction::In).unwrap();
    assert_eq!(m.method, HttpMethod::Post);
    assert_eq!(u.method, HttpMethod::Delete);
    assert_eq!(m.url, u.url);
    assert!(m.url.ends_with("/channels/c1/mute?api_key=asterisk%3Aasterisk&direction=in"));
}

#[test]
fn dial_with_defaults_has_only_credential() {
    let plan = client()
        .dial(&"c1".to_string(), &DialParams { caller: None, timeout: None })
        .unwrap();
    assert_eq!(
        plan.url,
        "http://localhost:8088/ari/channels/c1/dial?api_key=asterisk%3Aasterisk"
    );
}

#[test]
fn plan_rejects_illegal_channel_id() {
    match client().answer(&"../../etc".to_string()) {
        Err(AriError::UrlParse(_)) => {}
        _ => panic!("expected a configuration error for an illegal segment"),
    }
    match client().answer(&String::new()) {
        Err(AriError::UrlParse(_)) => {}
        _ => panic!("expected a configuration error for an empty segment"),
    }
}

#[test]
fn plan_succeeds_on_every_unreserved_channel_id() {
    // The fixed segments are always well formed, so only the caller's
    // identifier decides: an unreserved identifier is owed a plan.
    let c = client();
    assert!(c.answer(&"abc-123_X.~".to_string()).is_ok());
    assert!(c.get(&"abc-123_X.~".to_string()).is_ok());
}

#[test]
fn constant_path_plans_always_succeed() {
    let c = client();
    assert!(c.list().is_ok());
    let params = OriginateChannelParams {
        endpoint: "PJSIP/alice".to_string(),
        params: OriginateParams::Application { app: "demo".to_string(), app_args: Vec::new() },
        caller_id: None,
        timeout: None,
        channel_id: None,
        other_channel_id: None,
        originator: None,
        formats: Vec::new(),
    };
    assert!(c.originate(&params, &Vec::new()).is_ok());
}

#[test]
fn variables_body_is_exact_json() {
    let vars = vec![
        QueryPair::new("CALLERID(name)".to_string(), "Alice".to_string()),
        QueryPair::new("X".to_string(), "1".to_string()),
    ];
    let body = variables_body(&vars);
    assert_eq!(body, r#"{"variables":{"CALLERID(name)":"Alice","X":"1"}}"#);
    // And it is valid JSON for the reference parser.
    let v: serde_json::Value = serde_json::from_str(&body).unwrap();
    assert_eq!(v["variables"]["X"], "1");
}

#[test]
fn status_codes_are_validated() {
    assert!(check_status(200).is_ok());
    assert!(check_status(204).is_ok());
    assert!(check_status(299).is_ok());
    match check_status(404) {
        Err(AriError::HttpStatus(404)) => {}
        _ => panic!("expected the status error"),
    }
    match check_status(500) {
        Err(AriError::HttpStatus(500)) => {}
        _ => panic!("expected the status error"),
    }
    assert!(check_status(199).is_err());
    assert!(check_status(300).is_err());
}

fn channel_json(id: &str) -> String {
    let head = r#"{"id":""#;
    let tail = r#"","name":"PJSIP/a","state":"Up","protocol_id":"p","caller":{"name":"A","number":"1"},"connected":{"name":"B","number":"2"},"accountcode":"","dialplan":{"context":"default","exten":"s","priority":1,"app_name":"Stasis","app_data":"x"},"creationtime":"t","language":"en"}"#;
    format!("{}{}{}", head, id, tail)
}

#[test]
fn parses_channel_response() {
    let c = parse_channel(&channel_json("c42")).unwrap();
    assert_eq!(c.id, "c42");
    assert_eq!(c.dialplan.priority, 1);
    assert_eq!(c.connected.number, "2");
}

#[test]
fn parses_channel_list_response() {
    let body = format!("[{},{}]", channel_json("a"), channel_json("b"));
    let list = parse_channels(&body).unwrap();
    assert_eq!(list.len(), 2);
    assert_eq!(list[0].id, "a");
    assert_eq!(list[1].id, "b");
    assert!(parse_channels("[1]").is_err());
    assert!(parse_channels("{}").is_err());
}

#[test]
fn parses_playback_response() {
    let p = parse_playback(r#"{"id":"pb-1"}"#).unwrap();
    assert_eq!(p.id, "pb-1");
    assert!(parse_playback(r#"{"no_id":true}"#).is_err());
    assert!(parse_playback("garbage").is_err());
}

#[test]
fn snoop_plans_use_channel_identity() {
    let c = client();
    let body = channel_json("c7");
    let channel = parse_channel(&body).unwrap();
    let plan = channel.snoop(&c).unwrap();
    assert_eq!(
        plan.url,
        "http://localhost:8088/ari/channels/c7/snoop?api_key=asterisk%3Aasterisk"
    );
    let plan = channel.snoop_with_id(&c, &"watch".to_string()).unwrap();
    assert!(plan.url.contains("/channels/c7/snoop/watch?"));
    let plan = channel
        .start_external_media(&c, &vec![QueryPair::new("app".to_string(), "x".to_string())])
        .unwrap();
    assert!(plan.url.contains("/channels/externalMedia?api_key=asterisk%3Aasterisk&app=x"));
}

#[test]
fn default_client_targets_local_endpoint() {
    let c = RequestClient::default();
    assert_eq!(c.url.render(), "http://localhost:8088/");
    assert_eq!(c.username, "asterisk");
    assert_eq!(c.password, "asterisk");
    let plan = c.list().unwrap();
    assert_eq!(
        plan.url,
        "http://localhost:8088/channels?api_key=asterisk%3Aasterisk"
    );
}
