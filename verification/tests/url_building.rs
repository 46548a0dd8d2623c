use arirs::auth::Authorization;
use arirs::baseurl::BaseUrl;
use arirs::error::{AriError, UrlFault};
use arirs::params::{PlayMediaBaseParams, PlayMediaParams};
use arirs::query::QueryPair;
use arirs::request_client::RequestClient;

fn base(url: &str) -> BaseUrl {
    BaseUrl::parse(url).unwrap()
}

#[test]
fn builds_url() {
    let url = base("http://localhost:8080/");
    let api_key = Authorization::api_key("asterisk", "asterisk");

    let params = PlayMediaParams {
        playback_id: None,
        base_params: PlayMediaBaseParams {
            media: vec!["sound:hello".to_string()],
            lang: Some("en".to_string()),
            offset_ms: None,
            skip_ms: None,
        },
    };

    let expected = "http://localhost:8080/channel?api_key=asterisk%3Aasterisk&media=sound%3Ahello&lang=en";
    let actual = Authorization::build_url(
        &url,
        &vec!["channel".to_string()],
        &api_key,
        &params.query_pairs(),
    )
    .unwrap();

    assert_eq!(expected, actual.as_str());
}

#[test]
fn builds_url_with_newtype() {
    let url = base("http://localhost:8080/");
    let api_key = Authorization::api_key("asterisk", "asterisk");

    let expected = "http://localhost:8080/channel?api_key=asterisk%3Aasterisk";
    let no_params: Vec<QueryPair> = Vec::new();
    let actual =
        Authorization::build_url(&url, &vec!["channel".to_string()], &api_key, &no_params)
            .unwrap();

    assert_eq!(expected, actual.as_str());
}

#[test]
fn channel_serializes_parameters() {
    let request_client = RequestClient::new(base("http://localhost:8080/"), "asterisk", "asterisk");

    let params = arirs::channel::PlayMediaParams {
        media: "sound:hello".to_string(),
        lang: Some("en".to_string()),
        offset_ms: None,
        skip_ms: None,
        playback_id: None,
    };

    let expected = "http://localhost:8080/channel?api_key=asterisk%3Aasterisk&media=sound%3Ahello&lang=en";
    let actual = request_client
        .authorized_url(&vec!["channel".to_string()], &params.query_pairs())
        .unwrap();

    assert_eq!(expected, actual.as_str());
}

#[test]
fn channel_serializes_unit_type() {
    let request_client = RequestClient::new(base("http://localhost:8080/"), "asterisk", "asterisk");

    let expected = "http://localhost:8080/channel?api_key=asterisk%3Aasterisk";
    let no_params: Vec<QueryPair> = Vec::new();
    let actual = request_client
        .authorized_url(&vec!["channel".to_string()], &no_params)
        .unwrap();

    assert_eq!(expected, actual.as_str());
}

#[test]
fn request_params_serializes_parameters() {
    let request_client = RequestClient::new(base("http://localhost:8080/"), "asterisk", "asterisk");

    let params = PlayMediaParams {
        playback_id: None,
        base_params: PlayMediaBaseParams {
            media: vec!["sound:hello".to_string()],
            lang: Some("en".to_string()),
            offset_ms: None,
            skip_ms: None,
        },
    };

    let expected = "http://localhost:8080/channel?api_key=asterisk%3Aasterisk&media=sound%3Ahello&lang=en";
    let actual = request_client
        .authorized_url(&vec!["channel".to_string()], &params.query_pairs())
        .unwrap();

    assert_eq!(expected, actual.as_str());
}

#[test]
fn request_params_serializes_unit_type() {
    let request_client = RequestClient::new(base("http://localhost:8080/"), "asterisk", "asterisk");

    let expected = "http://localhost:8080/channel?api_key=asterisk%3Aasterisk";
    let no_params: Vec<QueryPair> = Vec::new();
    let actual = request_client
        .authorized_url(&vec!["channel".to_string()], &no_params)
        .unwrap();

    assert_eq!(expected, actual.as_str());
}

#[test]
fn built_url_is_already_normalized() {
    // The url crate parses our output back to the identical text.
    let url = base("http://localhost:8080/");
    let api_key = Authorization::api_key("asterisk", "asterisk");
    let no_params: Vec<QueryPair> = Vec::new();
    let built =
        Authorization::build_url(&url, &vec!["channel".to_string()], &api_key, &no_params)
            .unwrap();
    let reparsed = url::Url::parse(&built).unwrap();
    assert_eq!(reparsed.as_str(), built.as_str());
}

#[test]
fn parse_rejects_unsupported_scheme() {
    match BaseUrl::parse("ftp://localhost:8080/") {
        Err(AriError::UrlParse(UrlFault::UnsupportedScheme)) => {}
        _ => panic!("expected an unsupported-scheme fault"),
    }
}

#[test]
fn parse_rejects_bad_port() {
    match BaseUrl::parse("http://localhost:99999/") {
        Err(AriError::UrlParse(UrlFault::BadPort)) => {}
        _ => panic!("expected a bad-port fault"),
    }
}

#[test]
fn parse_rejects_query_in_base() {
    match BaseUrl::parse("http://localhost:8080/?x=1") {
        Err(AriError::UrlParse(UrlFault::UnexpectedPart)) => {}
        _ => panic!("expected a rejected query part"),
    }
}

#[test]
fn join_rejects_illegal_segment() {
    let url = base("http://localhost:8080/");
    match url.join(&vec!["bad/segment".to_string()]) {
        Err(AriError::UrlParse(UrlFault::BadSegment)) => {}
        _ => panic!("expected a bad-segment fault"),
    }
}

#[test]
fn parse_lowercases_host() {
    let url = base("http://LocalHost:8080/");
    assert_eq!(url.render().as_str(), "http://localhost:8080/");
}

#[test]
fn percent_encoding_matches_form_urlencoding() {
    // serde_qs agrees with the library on a value that needs escaping.
    let mut map = std::collections::BTreeMap::new();
    map.insert("media".to_string(), "sound:hello".to_string());
    let qs = serde_qs::to_string(&map).unwrap();
    assert_eq!(qs, "media=sound%3Ahello");

    let url = base("http://localhost:8080/");
    let api_key = Authorization::api_key("a", "b");
    let pairs = vec![QueryPair::new("media".to_string(), "sound:hello".to_string())];
    let built = Authorization::build_url(&url, &vec!["channel".to_string()], &api_key, &pairs)
        .unwrap();
    assert!(built.ends_with("media=sound%3Ahello"));
}

#[test]
fn percent_encoding_covers_multibyte_characters() {
    let mut map = std::collections::BTreeMap::new();
    map.insert("lang".to_string(), "café".to_string());
    let qs = serde_qs::to_string(&map).unwrap();
    assert_eq!(qs, "lang=caf%C3%A9");

    let url = base("http://localhost:8080/");
    let api_key = Authorization::api_key("a", "b");
    let pairs = vec![QueryPair::new("lang".to_string(), "café".to_string())];
    let built =
        Authorization::build_url(&url, &vec!["channel".to_string()], &api_key, &pairs).unwrap();
    assert!(built.ends_with("lang=caf%C3%A9"));
}
