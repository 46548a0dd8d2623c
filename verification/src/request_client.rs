//! The REST invoker: plans authenticated requests and interprets
//! responses.
//!
//! The library decides everything about a request — method, exact URL,
//! body — and hands the shell a [`RequestPlan`] to dispatch; the shell
//! hands back the status code and body, which [`check_status`] and the
//! typed parsers interpret.  A non-success status is an error, never a
//! silent success.

use vstd::prelude::*;
use vstd::string::StringExecFns;
use crate::auth::{built_url, Authorization};
use crate::baseurl::{seg_ok, BaseUrl};
use crate::channel::{channel_of_json, Channel, ChannelModel};
use crate::error::{AriError, UrlFault};
use crate::json::{jmodel, json_parsed, ser_json, Json, JsonData, Member};
use crate::params::{
    ChannelCreateParams, DialParams, Direction, OriginateChannelParams,
    OriginateChannelWithIdParams, PlayMediaBaseParams, PlayMediaParams, RecordParams, Reason,
    SendDtmfParams,
};
use crate::playback::{playback_of_json, Playback};
use crate::query::{pairs_model, QueryPair};
use crate::recording::{live_recording_of_json, LiveRecording};

verus! {

/// The HTTP method of a planned request.
#[derive(Clone, Copy, Debug, PartialEq, Eq, Structural)]
pub enum HttpMethod {
    Get,
    Post,
    Delete,
}

/// One fully planned request: what the shell must send, and nothing more.
pub struct RequestPlan {
    pub method: HttpMethod,
    pub url: String,
    pub body: Option<String>,
}

/// The authenticated request context: base URL and credential, immutable
/// after construction and shared read-only by concurrent calls.
pub struct RequestClient {
    pub url: BaseUrl,
    pub username: String,
    pub password: String,
}

impl RequestClient {
    /// The credential this context injects into every request.
    pub open spec fn cred(self) -> Seq<char> {
        self.username@ + seq![':'] + self.password@
    }

    /// Builds a request context.
    pub fn new(url: BaseUrl, username: &str, password: &str) -> (r: RequestClient)
        ensures
            r.url@ == url@,
            r.username@ == username@,
            r.password@ == password@,
    {
        RequestClient { url, username: username.to_owned(), password: password.to_owned() }
    }

    /// The credential as the wire carries it.
    pub fn get_api_key(&self) -> (r: String)
        ensures
            r@ == self.cred(),
    {
        Authorization::api_key(self.username.as_str(), self.password.as_str())
    }

    /// An authenticated URL under this context's base.
    pub fn authorized_url(&self, path: &Vec<String>, pairs: &Vec<QueryPair>) -> (r: Result<
        String,
        AriError,
    >)
        ensures
            match r {
                Ok(u) => (forall|k: int|
                    0 <= k < path.deep_view().len() ==> seg_ok(path.deep_view()[k])) && u@
                    == built_url(self.url@, path.deep_view(), self.cred(), pairs_model(pairs@)),
                Err(e) => match e {
                    AriError::UrlParse(f) => f == UrlFault::BadSegment && exists|k: int|
                        0 <= k < path.deep_view().len() && !seg_ok(path.deep_view()[k]),
                    _ => false,
                },
            },
    {
        let api_key = self.get_api_key();
        Authorization::build_url(&self.url, path, api_key.as_str(), pairs)
    }

    fn make_plan(
        &self,
        method: HttpMethod,
        path: &Vec<String>,
        pairs: &Vec<QueryPair>,
        body: Option<String>,
    ) -> (r: Result<RequestPlan, AriError>)
        ensures
            match r {
                Ok(p) => (forall|k: int|
                    0 <= k < path.deep_view().len() ==> seg_ok(path.deep_view()[k])) && p.method
                    == method && p.url@ == built_url(
                    self.url@,
                    path.deep_view(),
                    self.cred(),
                    pairs_model(pairs@),
                ) && p.body == body,
                Err(e) => match e {
                    AriError::UrlParse(f) => f == UrlFault::BadSegment && exists|k: int|
                        0 <= k < path.deep_view().len() && !seg_ok(path.deep_view()[k]),
                    _ => false,
                },
            },
    {
        match self.authorized_url(path, pairs) {
            Ok(url) => Ok(RequestPlan { method, url, body }),
            Err(e) => Err(e),
        }
    }
}

impl Default for RequestClient {
    /// The conventional local development endpoint and credentials.
    fn default() -> (r: RequestClient)
        ensures
            r.url@.scheme == crate::baseurl::UrlScheme::Http,
            r.url@.host == "localhost"@,
            r.url@.port == Some(8088u16),
            r.url@.path == Seq::<Seq<char>>::empty(),
            r.username@ == "asterisk"@,
            r.password@ == "asterisk"@,
    {
        let path: Vec<String> = Vec::new();
        let url = BaseUrl {
            scheme: crate::baseurl::UrlScheme::Http,
            host: String::from_str("localhost"),
            port: Some(8088),
            path,
        };
        assert(url@.path =~= Seq::<Seq<char>>::empty());
        RequestClient {
            url,
            username: String::from_str("asterisk"),
            password: String::from_str("asterisk"),
        }
    }
}

/// Pushes one segment and keeps the model in step.
fn push_seg(path: &mut Vec<String>, seg: String)
    ensures
        final(path).deep_view() == old(path).deep_view() + seq![seg@],
{
    let ghost prev = path.deep_view();
    path.push(seg);
    proof {
        assert(forall|t: int| 0 <= t < prev.len() ==> #[trigger] path.deep_view()[t] == prev[t]);
        assert(path.deep_view()[prev.len() as int] == path@[prev.len() as int]@);
        assert(path.deep_view() =~= prev + seq![path@[prev.len() as int]@]);
    }
}

/// The fixed path segments of every planned operation are well formed, so a
/// plan is owed unless a caller-supplied identifier is empty or holds a
/// character outside the unreserved set.
proof fn lemma_fixed_segs_ok()
    ensures
        seg_ok("channels"@),
        seg_ok("answer"@),
        seg_ok("ring"@),
        seg_ok("dtmf"@),
        seg_ok("mute"@),
        seg_ok("hold"@),
        seg_ok("play"@),
        seg_ok("media"@),
        seg_ok("record"@),
        seg_ok("dial"@),
        seg_ok("create"@),
        seg_ok("snoop"@),
        seg_ok("externalMedia"@),
{
    reveal_strlit("channels");
    reveal_strlit("answer");
    reveal_strlit("ring");
    reveal_strlit("dtmf");
    reveal_strlit("mute");
    reveal_strlit("hold");
    reveal_strlit("play");
    reveal_strlit("media");
    reveal_strlit("record");
    reveal_strlit("dial");
    reveal_strlit("create");
    reveal_strlit("snoop");
    reveal_strlit("externalMedia");
    assert("channels"@ =~= seq!['c', 'h', 'a', 'n', 'n', 'e', 'l', 's']);
    assert("answer"@ =~= seq!['a', 'n', 's', 'w', 'e', 'r']);
    assert("ring"@ =~= seq!['r', 'i', 'n', 'g']);
    assert("dtmf"@ =~= seq!['d', 't', 'm', 'f']);
    assert("mute"@ =~= seq!['m', 'u', 't', 'e']);
    assert("hold"@ =~= seq!['h', 'o', 'l', 'd']);
    assert("play"@ =~= seq!['p', 'l', 'a', 'y']);
    assert("media"@ =~= seq!['m', 'e', 'd', 'i', 'a']);
    assert("record"@ =~= seq!['r', 'e', 'c', 'o', 'r', 'd']);
    assert("dial"@ =~= seq!['d', 'i', 'a', 'l']);
    assert("create"@ =~= seq!['c', 'r', 'e', 'a', 't', 'e']);
    assert("snoop"@ =~= seq!['s', 'n', 'o', 'o', 'p']);
    assert("externalMedia"@ =~= seq![
        'e', 'x', 't', 'e', 'r', 'n', 'a', 'l', 'M', 'e', 'd', 'i', 'a',
    ]);
}

impl RequestClient {
    /// Plans answering a channel.
    pub fn answer(&self, channel_id: &String) -> (r: Result<RequestPlan, AriError>)
        ensures
            r is Ok <==> seg_ok(channel_id@),
            match r {
                Ok(p) => p.method == HttpMethod::Post && p.body is None && p.url@ == built_url(
                    self.url@,
                    seq!["channels"@, channel_id@, "answer"@],
                    self.cred(),
                    Seq::empty(),
                ),
                Err(e) => e matches AriError::UrlParse(UrlFault::BadSegment),
            },
    {
        let mut path: Vec<String> = Vec::new();
        push_seg(&mut path, String::from_str("channels"));
        push_seg(&mut path, channel_id.clone());
        push_seg(&mut path, String::from_str("answer"));
        assert(path.deep_view() =~= seq!["channels"@, channel_id@, "answer"@]);
        let pairs: Vec<QueryPair> = Vec::new();
        assert(pairs_model(pairs@) =~= Seq::<(Seq<char>, Seq<char>)>::empty());
        let r = self.make_plan(HttpMethod::Post, &path, &pairs, None);
        proof {
            lemma_fixed_segs_ok();
            assert(path.deep_view()[0] == "channels"@);
            assert(path.deep_view()[1] == channel_id@);
            assert(path.deep_view()[2] == "answer"@);
        }
        r
    }

    /// Plans hanging a channel up for a reason.
    pub fn hangup(&self, channel_id: &String, reason: &Reason) -> (r: Result<
        RequestPlan,
        AriError,
    >)
        ensures
            r is Ok <==> seg_ok(channel_id@),
            match r {
                Ok(p) => p.method == HttpMethod::Delete && p.body is None && p.url@ == built_url(
                    self.url@,
                    seq!["channels"@, channel_id@],
                    self.cred(),
                    reason.spec_pairs(),
                ),
                Err(e) => e matches AriError::UrlParse(UrlFault::BadSegment),
            },
    {
        let mut path: Vec<String> = Vec::new();
        push_seg(&mut path, String::from_str("channels"));
        push_seg(&mut path, channel_id.clone());
        assert(path.deep_view() =~= seq!["channels"@, channel_id@]);
        let pairs = reason.query_pairs();
        let r = self.make_plan(HttpMethod::Delete, &path, &pairs, None);
        proof {
            lemma_fixed_segs_ok();
            assert(path.deep_view()[0] == "channels"@);
            assert(path.deep_view()[1] == channel_id@);
        }
        r
    }

    /// Plans starting the ringing indication.
    pub fn start_ringing(&self, channel_id: &String) -> (r: Result<RequestPlan, AriError>)
        ensures
            r is Ok <==> seg_ok(channel_id@),
            match r {
                Ok(p) => p.method == HttpMethod::Post && p.body is None && p.url@ == built_url(
                    self.url@,
                    seq!["channels"@, channel_id@, "ring"@],
                    self.cred(),
                    Seq::empty(),
                ),
                Err(e) => e matches AriError::UrlParse(UrlFault::BadSegment),
            },
    {
        let mut path: Vec<String> = Vec::new();
        push_seg(&mut path, String::from_str("channels"));
        push_seg(&mut path, channel_id.clone());
        push_seg(&mut path, String::from_str("ring"));
        assert(path.deep_view() =~= seq!["channels"@, channel_id@, "ring"@]);
        let pairs: Vec<QueryPair> = Vec::new();
        assert(pairs_model(pairs@) =~= Seq::<(Seq<char>, Seq<char>)>::empty());
        let r = self.make_plan(HttpMethod::Post, &path, &pairs, None);
        proof {
            lemma_fixed_segs_ok();
            assert(path.deep_view()[0] == "channels"@);
            assert(path.deep_view()[1] == channel_id@);
            assert(path.deep_view()[2] == "ring"@);
        }
        r
    }

    /// Plans stopping the ringing indication.
    pub fn stop_ringing(&self, channel_id: &String) -> (r: Result<RequestPlan, AriError>)
        ensures
            r is Ok <==> seg_ok(channel_id@),
            match r {
                Ok(p) => p.method == HttpMethod::Delete && p.body is None && p.url@ == built_url(
                    self.url@,
                    seq!["channels"@, channel_id@, "ring"@],
                    self.cred(),
                    Seq::empty(),
                ),
                Err(e) => e matches AriError::UrlParse(UrlFault::BadSegment),
            },
    {
        let mut path: Vec<String> = Vec::new();
        push_seg(&mut path, String::from_str("channels"));
        push_seg(&mut path, channel_id.clone());
        push_seg(&mut path, String::from_str("ring"));
        assert(path.deep_view() =~= seq!["channels"@, channel_id@, "ring"@]);
        let pairs: Vec<QueryPair> = Vec::new();
        assert(pairs_model(pairs@) =~= Seq::<(Seq<char>, Seq<char>)>::empty());
        let r = self.make_plan(HttpMethod::Delete, &path, &pairs, None);
        proof {
            lemma_fixed_segs_ok();
            assert(path.deep_view()[0] == "channels"@);
            assert(path.deep_view()[1] == channel_id@);
            assert(path.deep_view()[2] == "ring"@);
        }
        r
    }

    /// Plans sending DTMF digits.
    pub fn send_dtmf(&self, channel_id: &String, params: &SendDtmfParams) -> (r: Result<
        RequestPlan,
        AriError,
    >)
        ensures
            r is Ok <==> seg_ok(channel_id@),
            match r {
                Ok(p) => p.method == HttpMethod::Post && p.body is None && p.url@ == built_url(
                    self.url@,
                    seq!["channels"@, channel_id@, "dtmf"@],
                    self.cred(),
                    params.spec_pairs(),
                ),
                Err(e) => e matches AriError::UrlParse(UrlFault::BadSegment),
            },
    {
        let mut path: Vec<String> = Vec::new();
        push_seg(&mut path, String::from_str("channels"));
        push_seg(&mut path, channel_id.clone());
        push_seg(&mut path, String::from_str("dtmf"));
        assert(path.deep_view() =~= seq!["channels"@, channel_id@, "dtmf"@]);
        let pairs = params.query_pairs();
        let r = self.make_plan(HttpMethod::Post, &path, &pairs, None);
        proof {
            lemma_fixed_segs_ok();
            assert(path.deep_view()[0] == "channels"@);
            assert(path.deep_view()[1] == channel_id@);
            assert(path.deep_view()[2] == "dtmf"@);
        }
        r
    }

    /// Plans muting a direction of a channel.
    pub fn mute(&self, channel_id: &String, direction: &Direction) -> (r: Result<
        RequestPlan,
        AriError,
    >)
        ensures
            r is Ok <==> seg_ok(channel_id@),
            match r {
                Ok(p) => p.method == HttpMethod::Post && p.body is None && p.url@ == built_url(
                    self.url@,
                    seq!["channels"@, channel_id@, "mute"@],
                    self.cred(),
                    direction.spec_pairs(),
                ),
                Err(e) => e matches AriError::UrlParse(UrlFault::BadSegment),
            },
    {
        let mut path: Vec<String> = Vec::new();
        push_seg(&mut path, String::from_str("channels"));
        push_seg(&mut path, channel_id.clone());
        push_seg(&mut path, String::from_str("mute"));
        assert(path.deep_view() =~= seq!["channels"@, channel_id@, "mute"@]);
        let pairs = direction.query_pairs();
        let r = self.make_plan(HttpMethod::Post, &path, &pairs, None);
        proof {
            lemma_fixed_segs_ok();
            assert(path.deep_view()[0] == "channels"@);
            assert(path.deep_view()[1] == channel_id@);
            assert(path.deep_view()[2] == "mute"@);
        }
        r
    }

    /// Plans unmuting a direction of a channel.
    pub fn unmute(&self, channel_id: &String, direction: &Direction) -> (r: Result<
        RequestPlan,
        AriError,
    >)
        ensures
            r is Ok <==> seg_ok(channel_id@),
            match r {
                Ok(p) => p.method == HttpMethod::Delete && p.body is None && p.url@ == built_url(
                    self.url@,
                    seq!["channels"@, channel_id@, "mute"@],
                    self.cred(),
                    direction.spec_pairs(),
                ),
                Err(e) => e matches AriError::UrlParse(UrlFault::BadSegment),
            },
    {
        let mut path: Vec<String> = Vec::new();
        push_seg(&mut path, String::from_str("channels"));
        push_seg(&mut path, channel_id.clone());
        push_seg(&mut path, String::from_str("mute"));
        assert(path.deep_view() =~= seq!["channels"@, channel_id@, "mute"@]);
        let pairs = direction.query_pairs();
        let r = self.make_plan(HttpMethod::Delete, &path, &pairs, None);
        proof {
            lemma_fixed_segs_ok();
            assert(path.deep_view()[0] == "channels"@);
            assert(path.deep_view()[1] == channel_id@);
            assert(path.deep_view()[2] == "mute"@);
        }
        r
    }

    /// Plans putting a channel on hold.
    pub fn hold(&self, channel_id: &String) -> (r: Result<RequestPlan, AriError>)
        ensures
            r is Ok <==> seg_ok(channel_id@),
            match r {
                Ok(p) => p.method == HttpMethod::Post && p.body is None && p.url@ == built_url(
                    self.url@,
                    seq!["channels"@, channel_id@, "hold"@],
                    self.cred(),
                    Seq::empty(),
                ),
                Err(e) => e matches AriError::UrlParse(UrlFault::BadSegment),
            },
    {
        let mut path: Vec<String> = Vec::new();
        push_seg(&mut path, String::from_str("channels"));
        push_seg(&mut path, channel_id.clone());
        push_seg(&mut path, String::from_str("hold"));
        assert(path.deep_view() =~= seq!["channels"@, channel_id@, "hold"@]);
        let pairs: Vec<QueryPair> = Vec::new();
        assert(pairs_model(pairs@) =~= Seq::<(Seq<char>, Seq<char>)>::empty());
        let r = self.make_plan(HttpMethod::Post, &path, &pairs, None);
        proof {
            lemma_fixed_segs_ok();
            assert(path.deep_view()[0] == "channels"@);
            assert(path.deep_view()[1] == channel_id@);
            assert(path.deep_view()[2] == "hold"@);
        }
        r
    }

    /// Plans taking a channel off hold.
    pub fn unhold(&self, channel_id: &String) -> (r: Result<RequestPlan, AriError>)
        ensures
            r is Ok <==> seg_ok(channel_id@),
            match r {
                Ok(p) => p.method == HttpMethod::Delete && p.body is None && p.url@ == built_url(
                    self.url@,
                    seq!["channels"@, channel_id@, "hold"@],
                    self.cred(),
                    Seq::empty(),
                ),
                Err(e) => e matches AriError::UrlParse(UrlFault::BadSegment),
            },
    {
        let mut path: Vec<String> = Vec::new();
        push_seg(&mut path, String::from_str("channels"));
        push_seg(&mut path, channel_id.clone());
        push_seg(&mut path, String::from_str("hold"));
        assert(path.deep_view() =~= seq!["channels"@, channel_id@, "hold"@]);
        let pairs: Vec<QueryPair> = Vec::new();
        assert(pairs_model(pairs@) =~= Seq::<(Seq<char>, Seq<char>)>::empty());
        let r = self.make_plan(HttpMethod::Delete, &path, &pairs, None);
        proof {
            lemma_fixed_segs_ok();
            assert(path.deep_view()[0] == "channels"@);
            assert(path.deep_view()[1] == channel_id@);
            assert(path.deep_view()[2] == "hold"@);
        }
        r
    }

    /// Plans starting a playback on a channel.
    pub fn play_media(&self, channel_id: &String, params: &PlayMediaParams) -> (r: Result<
        RequestPlan,
        AriError,
    >)
        ensures
            r is Ok <==> seg_ok(channel_id@),
            match r {
                Ok(p) => p.method == HttpMethod::Post && p.body is None && p.url@ == built_url(
                    self.url@,
                    seq!["channels"@, channel_id@, "play"@],
                    self.cred(),
                    params.spec_pairs(),
                ),
                Err(e) => e matches AriError::UrlParse(UrlFault::BadSegment),
            },
    {
        let mut path: Vec<String> = Vec::new();
        push_seg(&mut path, String::from_str("channels"));
        push_seg(&mut path, channel_id.clone());
        push_seg(&mut path, String::from_str("play"));
        assert(path.deep_view() =~= seq!["channels"@, channel_id@, "play"@]);
        let pairs = params.query_pairs();
        let r = self.make_plan(HttpMethod::Post, &path, &pairs, None);
        proof {
            lemma_fixed_segs_ok();
            assert(path.deep_view()[0] == "channels"@);
            assert(path.deep_view()[1] == channel_id@);
            assert(path.deep_view()[2] == "play"@);
        }
        r
    }

    /// Plans starting a playback under a caller-chosen identifier.
    pub fn play_media_with_id(
        &self,
        channel_id: &String,
        playback_id: &String,
        params: &PlayMediaBaseParams,
    ) -> (r: Result<RequestPlan, AriError>)
        ensures
            r is Ok <==> seg_ok(channel_id@) && seg_ok(playback_id@),
            match r {
                Ok(p) => p.method == HttpMethod::Post && p.body is None && p.url@ == built_url(
                    self.url@,
                    seq!["channels"@, channel_id@, "play"@, playback_id@, "media"@],
                    self.cred(),
                    params.spec_pairs(),
                ),
                Err(e) => e matches AriError::UrlParse(UrlFault::BadSegment),
            },
    {
        let mut path: Vec<String> = Vec::new();
        push_seg(&mut path, String::from_str("channels"));
        push_seg(&mut path, channel_id.clone());
        push_seg(&mut path, String::from_str("play"));
        push_seg(&mut path, playback_id.clone());
        push_seg(&mut path, String::from_str("media"));
        assert(path.deep_view() =~= seq![
            "channels"@,
            channel_id@,
            "play"@,
            playback_id@,
            "media"@,
        ]);
        let pairs = params.query_pairs();
        let r = self.make_plan(HttpMethod::Post, &path, &pairs, None);
        proof {
            lemma_fixed_segs_ok();
            assert(path.deep_view()[0] == "channels"@);
            assert(path.deep_view()[1] == channel_id@);
            assert(path.deep_view()[2] == "play"@);
            assert(path.deep_view()[3] == playback_id@);
            assert(path.deep_view()[4] == "media"@);
        }
        r
    }

    /// Plans recording a channel.
    pub fn record(&self, channel_id: &String, params: &RecordParams) -> (r: Result<
        RequestPlan,
        AriError,
    >)
        ensures
            r is Ok <==> seg_ok(channel_id@),
            match r {
                Ok(p) => p.method == HttpMethod::Post && p.body is None && p.url@ == built_url(
                    self.url@,
                    seq!["channels"@, channel_id@, "record"@],
                    self.cred(),
                    params.spec_pairs(),
                ),
                Err(e) => e matches AriError::UrlParse(UrlFault::BadSegment),
            },
    {
        let mut path: Vec<String> = Vec::new();
        push_seg(&mut path, String::from_str("channels"));
        push_seg(&mut path, channel_id.clone());
        push_seg(&mut path, String::from_str("record"));
        assert(path.deep_view() =~= seq!["channels"@, channel_id@, "record"@]);
        let pairs = params.query_pairs();
        let r = self.make_plan(HttpMethod::Post, &path, &pairs, None);
        proof {
            lemma_fixed_segs_ok();
            assert(path.deep_view()[0] == "channels"@);
            assert(path.deep_view()[1] == channel_id@);
            assert(path.deep_view()[2] == "record"@);
        }
        r
    }

    /// Plans dialing a created channel.
    pub fn dial(&self, channel_id: &String, params: &DialParams) -> (r: Result<
        RequestPlan,
        AriError,
    >)
        ensures
            r is Ok <==> seg_ok(channel_id@),
            match r {
                Ok(p) => p.method == HttpMethod::Post && p.body is None && p.url@ == built_url(
                    self.url@,
                    seq!["channels"@, channel_id@, "dial"@],
                    self.cred(),
                    params.spec_pairs(),
                ),
                Err(e) => e matches AriError::UrlParse(UrlFault::BadSegment),
            },
    {
        let mut path: Vec<String> = Vec::new();
        push_seg(&mut path, String::from_str("channels"));
        push_seg(&mut path, channel_id.clone());
        push_seg(&mut path, String::from_str("dial"));
        assert(path.deep_view() =~= seq!["channels"@, channel_id@, "dial"@]);
        let pairs = params.query_pairs();
        let r = self.make_plan(HttpMethod::Post, &path, &pairs, None);
        proof {
            lemma_fixed_segs_ok();
            assert(path.deep_view()[0] == "channels"@);
            assert(path.deep_view()[1] == channel_id@);
            assert(path.deep_view()[2] == "dial"@);
        }
        r
    }

    /// Plans listing the channels.
    pub fn list(&self) -> (r: Result<RequestPlan, AriError>)
        ensures
            (r matches Ok(p) && p.method == HttpMethod::Get && p.body is None && p.url@
                == built_url(self.url@, seq!["channels"@], self.cred(), Seq::empty())),
    {
        let mut path: Vec<String> = Vec::new();
        push_seg(&mut path, String::from_str("channels"));
        assert(path.deep_view() =~= seq!["channels"@]);
        let pairs: Vec<QueryPair> = Vec::new();
        assert(pairs_model(pairs@) =~= Seq::<(Seq<char>, Seq<char>)>::empty());
        let r = self.make_plan(HttpMethod::Get, &path, &pairs, None);
        proof {
            lemma_fixed_segs_ok();
            assert(path.deep_view()[0] == "channels"@);
        }
        r
    }

    /// Plans fetching one channel snapshot.
    pub fn get(&self, channel_id: &String) -> (r: Result<RequestPlan, AriError>)
        ensures
            r is Ok <==> seg_ok(channel_id@),
            match r {
                Ok(p) => p.method == HttpMethod::Get && p.body is None && p.url@ == built_url(
                    self.url@,
                    seq!["channels"@, channel_id@],
                    self.cred(),
                    Seq::empty(),
                ),
                Err(e) => e matches AriError::UrlParse(UrlFault::BadSegment),
            },
    {
        let mut path: Vec<String> = Vec::new();
        push_seg(&mut path, String::from_str("channels"));
        push_seg(&mut path, channel_id.clone());
        assert(path.deep_view() =~= seq!["channels"@, channel_id@]);
        let pairs: Vec<QueryPair> = Vec::new();
        assert(pairs_model(pairs@) =~= Seq::<(Seq<char>, Seq<char>)>::empty());
        let r = self.make_plan(HttpMethod::Get, &path, &pairs, None);
        proof {
            lemma_fixed_segs_ok();
            assert(path.deep_view()[0] == "channels"@);
            assert(path.deep_view()[1] == channel_id@);
        }
        r
    }

    /// Plans creating a channel without dialing it; the variables travel
    /// in the JSON body.
    pub fn create(&self, params: &ChannelCreateParams, variables: &Vec<QueryPair>) -> (r: Result<
        RequestPlan,
        AriError,
    >)
        ensures
            (r matches Ok(p) && p.method == HttpMethod::Post && p.url@ == built_url(
                self.url@,
                seq!["channels"@, "create"@],
                self.cred(),
                params.spec_pairs(),
            ) && (p.body matches Some(b) && b@ == ser_json(
                variables_body_model(pairs_model(variables@)),
            ))),
    {
        let mut path: Vec<String> = Vec::new();
        push_seg(&mut path, String::from_str("channels"));
        push_seg(&mut path, String::from_str("create"));
        assert(path.deep_view() =~= seq!["channels"@, "create"@]);
        let pairs = params.query_pairs();
        let body = variables_body(variables);
        let r = self.make_plan(HttpMethod::Post, &path, &pairs, Some(body));
        proof {
            lemma_fixed_segs_ok();
            assert(path.deep_view()[0] == "channels"@);
            assert(path.deep_view()[1] == "create"@);
        }
        r
    }

    /// Plans originating a call; the variables travel in the JSON body.
    pub fn originate(&self, params: &OriginateChannelParams, variables: &Vec<QueryPair>) -> (r:
        Result<RequestPlan, AriError>)
        ensures
            (r matches Ok(p) && p.method == HttpMethod::Post && p.url@ == built_url(
                self.url@,
                seq!["channels"@],
                self.cred(),
                params.spec_pairs(),
            ) && (p.body matches Some(b) && b@ == ser_json(
                variables_body_model(pairs_model(variables@)),
            ))),
    {
        let mut path: Vec<String> = Vec::new();
        push_seg(&mut path, String::from_str("channels"));
        assert(path.deep_view() =~= seq!["channels"@]);
        let pairs = params.query_pairs();
        let body = variables_body(variables);
        let r = self.make_plan(HttpMethod::Post, &path, &pairs, Some(body));
        proof {
            lemma_fixed_segs_ok();
            assert(path.deep_view()[0] == "channels"@);
        }
        r
    }

    /// Plans originating a call under a caller-chosen identifier; the
    /// variables travel in the JSON body.
    pub fn originate_with_id(
        &self,
        channel_id: &String,
        params: &OriginateChannelWithIdParams,
        variables: &Vec<QueryPair>,
    ) -> (r: Result<RequestPlan, AriError>)
        ensures
            r is Ok <==> seg_ok(channel_id@),
            match r {
                Ok(p) => p.method == HttpMethod::Post && p.url@ == built_url(
                    self.url@,
                    seq!["channels"@, channel_id@],
                    self.cred(),
                    params.spec_pairs(),
                ) && (p.body matches Some(b) && b@ == ser_json(
                    variables_body_model(pairs_model(variables@)),
                )),
                Err(e) => e matches AriError::UrlParse(UrlFault::BadSegment),
            },
    {
        let mut path: Vec<String> = Vec::new();
        push_seg(&mut path, String::from_str("channels"));
        push_seg(&mut path, channel_id.clone());
        assert(path.deep_view() =~= seq!["channels"@, channel_id@]);
        let pairs = params.query_pairs();
        let body = variables_body(variables);
        let r = self.make_plan(HttpMethod::Post, &path, &pairs, Some(body));
        proof {
            lemma_fixed_segs_ok();
            assert(path.deep_view()[0] == "channels"@);
            assert(path.deep_view()[1] == channel_id@);
        }
        r
    }
}

/// The JSON body that carries bulk variables: one object under the
/// `variables` key, each variable a string member.
pub open spec fn variables_body_model(vars: Seq<(Seq<char>, Seq<char>)>) -> JsonData {
    JsonData::Obj(
        seq![
            ("variables"@, JsonData::Obj(
                vars.map_values(|p: (Seq<char>, Seq<char>)| (p.0, JsonData::Str(p.1))),
            )),
        ],
    )
}

/// Renders the bulk-variables body.
pub fn variables_body(vars: &Vec<QueryPair>) -> (r: String)
    ensures
        r@ == ser_json(variables_body_model(pairs_model(vars@))),
{
    let mut inner: Vec<Member> = Vec::new();
    let mut i: usize = 0;
    while i < vars.len()
        invariant
            i <= vars.len(),
            crate::json::jmodel_members_vec(inner) == pairs_model(vars@).take(i as int).map_values(
                |p: (Seq<char>, Seq<char>)| (p.0, JsonData::Str(p.1)),
            ),
        decreases vars.len() - i,
    {
        let ghost prev = inner@;
        inner.push(
            Member { key: vars[i].key.clone(), value: Json::Str(vars[i].value.clone()) },
        );
        proof {
            crate::json::lemma_jmodel_members_seq(prev);
            crate::json::lemma_jmodel_members_seq(inner@);
            assert(forall|t: int| 0 <= t < prev.len() ==> inner@[t] == prev[t]);
            assert(forall|t: int|
                0 <= t < i ==> #[trigger] crate::json::jmodel_members_seq(inner@)[t]
                    == crate::json::jmodel_members_seq(prev)[t]);
            assert(crate::json::jmodel_members_seq(inner@)[i as int] == (
                vars@[i as int].key@,
                JsonData::Str(vars@[i as int].value@),
            ));
            assert(crate::json::jmodel_members_vec(inner) =~= pairs_model(vars@).take(
                i + 1,
            ).map_values(|p: (Seq<char>, Seq<char>)| (p.0, JsonData::Str(p.1))));
        }
        i += 1;
    }
    assert(pairs_model(vars@).take(vars@.len() as int) =~= pairs_model(vars@));
    let mut outer: Vec<Member> = Vec::new();
    outer.push(Member { key: String::from_str("variables"), value: Json::Obj(inner) });
    let j = Json::Obj(outer);
    proof {
        crate::channel::lemma_member_model(j);
        assert(jmodel(j)->Obj_0 =~= variables_body_model(pairs_model(vars@))->Obj_0);
    }
    j.to_string()
}

/// Accepts exactly the success status codes; any other status is the
/// typed status error, never a silent success.
pub fn check_status(status: u16) -> (r: Result<(), AriError>)
    ensures
        r is Ok <==> 200 <= status < 300,
        match r {
            Ok(_) => true,
            Err(e) => match e {
                AriError::HttpStatus(c) => c == status,
                _ => false,
            },
        },
{
    if 200 <= status && status < 300 {
        Ok(())
    } else {
        Err(AriError::HttpStatus(status))
    }
}

/// Parses a response body declared to hold one channel snapshot.
pub fn parse_channel(body: &str) -> (r: Result<Channel, AriError>)
    ensures
        match r {
            Ok(c) => match json_parsed(body@) {
                Some(d) => channel_of_json(d) == Some(c@),
                None => false,
            },
            Err(e) => e is Decode && match json_parsed(body@) {
                Some(d) => channel_of_json(d) is None,
                None => true,
            },
        },
{
    match crate::json::parse_json(body) {
        Some(j) => match Channel::from_json(&j) {
            Some(c) => Ok(c),
            None => Err(AriError::Decode),
        },
        None => Err(AriError::Decode),
    }
}

/// Parses a response body declared to hold one playback handle.
pub fn parse_playback(body: &str) -> (r: Result<Playback, AriError>)
    ensures
        match r {
            Ok(p) => match json_parsed(body@) {
                Some(d) => playback_of_json(d) == Some(p.id@),
                None => false,
            },
            Err(e) => e is Decode && match json_parsed(body@) {
                Some(d) => playback_of_json(d) is None,
                None => true,
            },
        },
{
    match crate::json::parse_json(body) {
        Some(j) => match Playback::from_json(&j) {
            Some(p) => Ok(p),
            None => Err(AriError::Decode),
        },
        None => Err(AriError::Decode),
    }
}

/// Parses a response body declared to hold one live recording.
pub fn parse_live_recording(body: &str) -> (r: Result<LiveRecording, AriError>)
    ensures
        match r {
            Ok(x) => match json_parsed(body@) {
                Some(d) => live_recording_of_json(d) == Some((x.id@, x.name@)),
                None => false,
            },
            Err(e) => e is Decode && match json_parsed(body@) {
                Some(d) => live_recording_of_json(d) is None,
                None => true,
            },
        },
{
    match crate::json::parse_json(body) {
        Some(j) => match LiveRecording::from_json(&j) {
            Some(x) => Ok(x),
            None => Err(AriError::Decode),
        },
        None => Err(AriError::Decode),
    }
}

/// The channel snapshots an array of JSON values decodes to, if all do.
pub open spec fn channels_of_items(items: Seq<JsonData>) -> Option<Seq<ChannelModel>>
    decreases items.len(),
{
    if items.len() == 0 {
        Some(Seq::empty())
    } else {
        match channel_of_json(items[0]) {
            Some(c) => match channels_of_items(items.drop_first()) {
                Some(rest) => Some(seq![c] + rest),
                None => None,
            },
            None => None,
        }
    }
}

/// The channel list a JSON value decodes to, if it is an array of
/// snapshots.
pub open spec fn channels_of_json(d: JsonData) -> Option<Seq<ChannelModel>> {
    match d {
        JsonData::Arr(items) => channels_of_items(items),
        _ => None,
    }
}

proof fn lemma_channels_bad(items: Seq<JsonData>, i: int)
    requires
        0 <= i < items.len(),
        channel_of_json(items[i]) is None,
    ensures
        channels_of_items(items) is None,
    decreases i,
{
    if i > 0 {
        match channel_of_json(items[0]) {
            Some(_) => {
                lemma_channels_bad(items.drop_first(), i - 1);
            },
            None => {},
        }
    }
}

proof fn lemma_channels_full(items: Seq<JsonData>, out: Seq<ChannelModel>)
    requires
        out.len() == items.len(),
        forall|k: int|
            0 <= k < items.len() ==> channel_of_json(items[k]) == Some(#[trigger] out[k]),
    ensures
        channels_of_items(items) == Some(out),
    decreases items.len(),
{
    if items.len() == 0 {
        assert(out =~= Seq::<ChannelModel>::empty());
    } else {
        lemma_channels_full(items.drop_first(), out.drop_first());
        assert(channel_of_json(items[0]) == Some(out[0]));
        assert(seq![out[0]] + out.drop_first() =~= out);
    }
}

/// Parses a response body declared to hold the channel list.
pub fn parse_channels(body: &str) -> (r: Result<Vec<Channel>, AriError>)
    ensures
        match r {
            Ok(cs) => match json_parsed(body@) {
                Some(d) => channels_of_json(d) == Some(cs.deep_view()),
                None => false,
            },
            Err(e) => e is Decode && match json_parsed(body@) {
                Some(d) => channels_of_json(d) is None,
                None => true,
            },
        },
{
    let j = match crate::json::parse_json(body) {
        Some(j) => j,
        None => {
            return Err(AriError::Decode);
        },
    };
    let items = match &j {
        Json::Arr(items) => items,
        _ => {
            return Err(AriError::Decode);
        },
    };
    proof {
        crate::json::lemma_jmodel_seq(items@);
    }
    let ghost model_items = crate::json::jmodel_seq(items@);
    let mut out: Vec<Channel> = Vec::new();
    let mut i: usize = 0;
    while i < items.len()
        invariant
            i <= items.len(),
            json_parsed(body@) == Some(JsonData::Arr(model_items)),
            model_items == crate::json::jmodel_seq(items@),
            model_items.len() == items@.len(),
            forall|k: int| 0 <= k < items@.len() ==> model_items[k] == jmodel(items@[k]),
            out.deep_view().len() == i,
            forall|k: int|
                0 <= k < i ==> channel_of_json(model_items[k]) == Some(
                    #[trigger] out.deep_view()[k],
                ),
        decreases items.len() - i,
    {
        match Channel::from_json(&items[i]) {
            Some(c) => {
                let ghost prev = out.deep_view();
                out.push(c);
                proof {
                    assert(forall|t: int|
                        0 <= t < prev.len() ==> #[trigger] out.deep_view()[t] == prev[t]);
                    assert(out.deep_view()[prev.len() as int] == out@[prev.len() as int]@);
                }
            },
            None => {
                proof {
                    lemma_channels_bad(model_items, i as int);
                }
                return Err(AriError::Decode);
            },
        }
        i += 1;
    }
    proof {
        lemma_channels_full(model_items, out.deep_view());
    }
    Ok(out)
}

impl Channel {
    /// Plans snooping on this channel.
    pub fn snoop(&self, client: &RequestClient) -> (r: Result<RequestPlan, AriError>)
        ensures
            r is Ok <==> seg_ok(self.id@),
            match r {
                Ok(p) => p.method == HttpMethod::Post && p.body is None && p.url@ == built_url(
                    client.url@,
                    seq!["channels"@, self.id@, "snoop"@],
                    client.cred(),
                    Seq::empty(),
                ),
                Err(e) => e matches AriError::UrlParse(UrlFault::BadSegment),
            },
    {
        let mut path: Vec<String> = Vec::new();
        push_seg(&mut path, String::from_str("channels"));
        push_seg(&mut path, self.id.clone());
        push_seg(&mut path, String::from_str("snoop"));
        assert(path.deep_view() =~= seq!["channels"@, self.id@, "snoop"@]);
        let pairs: Vec<QueryPair> = Vec::new();
        assert(pairs_model(pairs@) =~= Seq::<(Seq<char>, Seq<char>)>::empty());
        let r = client.make_plan(HttpMethod::Post, &path, &pairs, None);
        proof {
            lemma_fixed_segs_ok();
            assert(path.deep_view()[0] == "channels"@);
            assert(path.deep_view()[1] == self.id@);
            assert(path.deep_view()[2] == "snoop"@);
        }
        r
    }

    /// Plans snooping on this channel under a caller-chosen identifier.
    pub fn snoop_with_id(&self, client: &RequestClient, snoop_id: &String) -> (r: Result<
        RequestPlan,
        AriError,
    >)
        ensures
            r is Ok <==> seg_ok(self.id@) && seg_ok(snoop_id@),
            match r {
                Ok(p) => p.method == HttpMethod::Post && p.body is None && p.url@ == built_url(
                    client.url@,
                    seq!["channels"@, self.id@, "snoop"@, snoop_id@],
                    client.cred(),
                    Seq::empty(),
                ),
                Err(e) => e matches AriError::UrlParse(UrlFault::BadSegment),
            },
    {
        let mut path: Vec<String> = Vec::new();
        push_seg(&mut path, String::from_str("channels"));
        push_seg(&mut path, self.id.clone());
        push_seg(&mut path, String::from_str("snoop"));
        push_seg(&mut path, snoop_id.clone());
        assert(path.deep_view() =~= seq!["channels"@, self.id@, "snoop"@, snoop_id@]);
        let pairs: Vec<QueryPair> = Vec::new();
        assert(pairs_model(pairs@) =~= Seq::<(Seq<char>, Seq<char>)>::empty());
        let r = client.make_plan(HttpMethod::Post, &path, &pairs, None);
        proof {
            lemma_fixed_segs_ok();
            assert(path.deep_view()[0] == "channels"@);
            assert(path.deep_view()[1] == self.id@);
            assert(path.deep_view()[2] == "snoop"@);
            assert(path.deep_view()[3] == snoop_id@);
        }
        r
    }

    /// Plans starting an external media channel with the given parameter
    /// pairs.
    pub fn start_external_media(&self, client: &RequestClient, params: &Vec<QueryPair>) -> (r:
        Result<RequestPlan, AriError>)
        ensures
            (r matches Ok(p) && p.method == HttpMethod::Post && p.body is None && p.url@
                == built_url(
                client.url@,
                seq!["channels"@, "externalMedia"@],
                client.cred(),
                pairs_model(params@),
            )),
    {
        let mut path: Vec<String> = Vec::new();
        push_seg(&mut path, String::from_str("channels"));
        push_seg(&mut path, String::from_str("externalMedia"));
        assert(path.deep_view() =~= seq!["channels"@, "externalMedia"@]);
        let r = client.make_plan(HttpMethod::Post, &path, params, None);
        proof {
            lemma_fixed_segs_ok();
            assert(path.deep_view()[0] == "channels"@);
            assert(path.deep_view()[1] == "externalMedia"@);
        }
        r
    }
}

} // verus!
