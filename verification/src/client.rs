//! The WebSocket connection manager, as a pure state machine.
//!
//! The asynchronous shell owns the socket and the timer; this module owns
//! every decision.  The shell feeds each observation — an inbound frame,
//! a keepalive tick, the consumer going away, a send failure — to
//! [`step`], performs the actions it returns, and stops once the state
//! reaches [`ConnState::Closing`].  One observation is handled completely
//! before the next is read, so events reach the consumer in frame order.
//!
//! A frame that fails to decode is reported to the consumer as a bad
//! frame and the connection stays open; it does not kill the session.

use vstd::prelude::*;
use crate::baseurl::{parse_base_spec, seg_ok, wf_base, ws_rendered, BaseUrl, BaseUrlModel};
use crate::error::{AriError, UrlFault};
use crate::event::{event_decoded, Event, EventModel};
use crate::query::{authorized_query_rendered, pairs_model, QueryPair};
use crate::text::string_of;

verus! {

/// The fixed keepalive interval, in milliseconds.
pub const KEEPALIVE_INTERVAL_MS: u64 = 5000;

/// The number of fresh random bytes each keepalive ping carries.
pub const PING_PAYLOAD_LEN: usize = 32;

/// Relies on `rand::Rng::gen` via `rand::thread_rng`: returns
/// [`PING_PAYLOAD_LEN`] bytes of process-local randomness.  Nothing is
/// assumed of their values.
#[verifier::external_body]
pub fn fresh_ping_payload() -> (r: Vec<u8>)
    ensures
        r@.len() == PING_PAYLOAD_LEN,
{
    rand::Rng::gen::<[u8; 32]>(&mut rand::thread_rng()).to_vec()
}

/// The lifecycle of one connection.
#[derive(Clone, Copy, Debug, PartialEq, Eq, Structural)]
pub enum ConnState {
    /// No socket; the initial state, and the terminal one.
    Disconnected,
    /// The handshake is in progress.
    Connecting,
    /// The loop owns the socket and multiplexes its inputs.
    Open,
    /// The loop is winding down; no further frames are sent.
    Closing,
}

/// One observation the multiplexing loop reacts to.
pub enum LoopInput {
    /// A text frame arrived, carrying one event payload.
    TextFrame(String),
    /// A ping frame arrived with its payload bytes.
    PingFrame(Vec<u8>),
    /// A pong frame arrived; it is observed and otherwise ignored.
    PongFrame(Vec<u8>),
    /// The peer sent a close frame.
    CloseFrame,
    /// The stream ended: no further frames will arrive.
    StreamEnded,
    /// The transport reported an error while reading.
    StreamError(String),
    /// The keepalive timer ticked; the payload for the ping to send.
    Tick(Vec<u8>),
    /// The consumer dropped its receiving end of the channel.
    ConsumerGone,
    /// Sending a frame failed.
    SendFailed,
}

/// The model of one observation.
pub ghost enum LoopInputModel {
    TextFrame(Seq<char>),
    PingFrame(Seq<u8>),
    PongFrame(Seq<u8>),
    CloseFrame,
    StreamEnded,
    StreamError(Seq<char>),
    Tick(Seq<u8>),
    ConsumerGone,
    SendFailed,
}

impl View for LoopInput {
    type V = LoopInputModel;

    open spec fn view(&self) -> LoopInputModel {
        match self {
            LoopInput::TextFrame(t) => LoopInputModel::TextFrame(t@),
            LoopInput::PingFrame(p) => LoopInputModel::PingFrame(p@),
            LoopInput::PongFrame(p) => LoopInputModel::PongFrame(p@),
            LoopInput::CloseFrame => LoopInputModel::CloseFrame,
            LoopInput::StreamEnded => LoopInputModel::StreamEnded,
            LoopInput::StreamError(m) => LoopInputModel::StreamError(m@),
            LoopInput::Tick(p) => LoopInputModel::Tick(p@),
            LoopInput::ConsumerGone => LoopInputModel::ConsumerGone,
            LoopInput::SendFailed => LoopInputModel::SendFailed,
        }
    }
}

/// One action the shell must perform.
pub enum LoopAction {
    /// Hand a decoded event to the consumer, in arrival order.
    Deliver(Event),
    /// Tell the consumer one frame could not be decoded.
    ReportBadFrame,
    /// Answer a ping with a pong carrying the identical payload.
    SendPong(Vec<u8>),
    /// Send a keepalive ping with the given payload.
    SendPing(Vec<u8>),
}

/// The model of one action.
pub ghost enum LoopActionModel {
    Deliver(EventModel),
    ReportBadFrame,
    SendPong(Seq<u8>),
    SendPing(Seq<u8>),
}

impl View for LoopAction {
    type V = LoopActionModel;

    open spec fn view(&self) -> LoopActionModel {
        match self {
            LoopAction::Deliver(e) => LoopActionModel::Deliver(e@),
            LoopAction::ReportBadFrame => LoopActionModel::ReportBadFrame,
            LoopAction::SendPong(p) => LoopActionModel::SendPong(p@),
            LoopAction::SendPing(p) => LoopActionModel::SendPing(p@),
        }
    }
}

/// The transition function of the manager: what one observation does to
/// the state, and the single action it may demand.
///
/// In `Open`: a text frame is delivered decoded, or reported bad, and the
/// connection stays open either way; a ping demands exactly one pong with
/// the identical payload; a pong is ignored; a close frame, the end of
/// the stream, a read error, the consumer going away, and a send failure
/// all move to `Closing` with nothing sent; a timer tick demands exactly
/// one ping carrying the given payload.  Outside `Open` every observation
/// is inert: the state is kept and nothing is sent.
pub open spec fn step_model(s: ConnState, i: LoopInputModel) -> (ConnState, Option<
    LoopActionModel,
>) {
    if s != ConnState::Open {
        (s, None)
    } else {
        match i {
            LoopInputModel::TextFrame(t) => match event_decoded(t) {
                Some(em) => (ConnState::Open, Some(LoopActionModel::Deliver(em))),
                None => (ConnState::Open, Some(LoopActionModel::ReportBadFrame)),
            },
            LoopInputModel::PingFrame(p) => (
                ConnState::Open,
                Some(LoopActionModel::SendPong(p)),
            ),
            LoopInputModel::PongFrame(_) => (ConnState::Open, None),
            LoopInputModel::CloseFrame => (ConnState::Closing, None),
            LoopInputModel::StreamEnded => (ConnState::Closing, None),
            LoopInputModel::StreamError(_) => (ConnState::Closing, None),
            LoopInputModel::Tick(p) => (ConnState::Open, Some(LoopActionModel::SendPing(p))),
            LoopInputModel::ConsumerGone => (ConnState::Closing, None),
            LoopInputModel::SendFailed => (ConnState::Closing, None),
        }
    }
}

/// Performs one transition of the manager.
pub fn step(s: ConnState, i: LoopInput) -> (r: (ConnState, Option<LoopAction>))
    ensures
        r.0 == step_model(s, i@).0,
        match r.1 {
            Some(a) => step_model(s, i@).1 == Some(a@),
            None => step_model(s, i@).1 is None,
        },
{
    if s != ConnState::Open {
        return (s, None);
    }
    match i {
        LoopInput::TextFrame(t) => match Event::decode(t.as_str()) {
            Ok(e) => (ConnState::Open, Some(LoopAction::Deliver(e))),
            Err(_) => (ConnState::Open, Some(LoopAction::ReportBadFrame)),
        },
        LoopInput::PingFrame(p) => (ConnState::Open, Some(LoopAction::SendPong(p))),
        LoopInput::PongFrame(_) => (ConnState::Open, None),
        LoopInput::CloseFrame => (ConnState::Closing, None),
        LoopInput::StreamEnded => (ConnState::Closing, None),
        LoopInput::StreamError(_) => (ConnState::Closing, None),
        LoopInput::Tick(p) => (ConnState::Open, Some(LoopAction::SendPing(p))),
        LoopInput::ConsumerGone => (ConnState::Closing, None),
        LoopInput::SendFailed => (ConnState::Closing, None),
    }
}

/// Keepalive: an open connection answers each timer tick with exactly one
/// ping, carrying exactly the payload the tick supplied, and stays open;
/// and it answers each inbound ping with exactly one pong carrying the
/// identical payload bytes.
pub proof fn lemma_keepalive(p: Seq<u8>)
    ensures
        step_model(ConnState::Open, LoopInputModel::Tick(p)) == (
            ConnState::Open,
            Some(LoopActionModel::SendPing(p)),
        ),
        step_model(ConnState::Open, LoopInputModel::PingFrame(p)) == (
            ConnState::Open,
            Some(LoopActionModel::SendPong(p)),
        ),
{
}

/// Cancellation: the consumer dropping its receiving end moves an open
/// connection to `Closing` with nothing sent, and from `Closing` no
/// observation whatever causes a send or a delivery.
pub proof fn lemma_cancellation(i: LoopInputModel)
    ensures
        step_model(ConnState::Open, LoopInputModel::ConsumerGone) == (
            ConnState::Closing,
            None::<LoopActionModel>,
        ),
        step_model(ConnState::Closing, i) == (ConnState::Closing, None::<LoopActionModel>),
{
}

/// The transcript of a whole run from a state: the final state and the
/// actions demanded, in order.
pub open spec fn run_model(s: ConnState, inputs: Seq<LoopInputModel>) -> (ConnState, Seq<
    LoopActionModel,
>)
    decreases inputs.len(),
{
    if inputs.len() == 0 {
        (s, Seq::empty())
    } else {
        let (s1, a) = step_model(s, inputs[0]);
        let (s2, rest) = run_model(s1, inputs.drop_first());
        match a {
            Some(a) => (s2, seq![a] + rest),
            None => (s2, rest),
        }
    }
}

/// Once closing, a whole run is inert: whatever sequence of observations
/// still arrives, the state stays `Closing` and nothing at all is sent or
/// delivered.
pub proof fn lemma_closing_run_inert(inputs: Seq<LoopInputModel>)
    ensures
        run_model(ConnState::Closing, inputs) == (
            ConnState::Closing,
            Seq::<LoopActionModel>::empty(),
        ),
    decreases inputs.len(),
{
    if inputs.len() > 0 {
        lemma_closing_run_inert(inputs.drop_first());
    }
}

/// Ordering: in an open connection fed only with text frames, the
/// delivered actions are the decoded frames, one per frame, in arrival
/// order — no reordering, no coalescing.
pub proof fn lemma_delivery_order(frames: Seq<Seq<char>>)
    requires
        forall|k: int| 0 <= k < frames.len() ==> event_decoded(#[trigger] frames[k]) is Some,
    ensures
        run_model(
            ConnState::Open,
            frames.map_values(|t: Seq<char>| LoopInputModel::TextFrame(t)),
        ).0 == ConnState::Open,
        run_model(
            ConnState::Open,
            frames.map_values(|t: Seq<char>| LoopInputModel::TextFrame(t)),
        ).1 == frames.map_values(
            |t: Seq<char>| LoopActionModel::Deliver(event_decoded(t)->0),
        ),
    decreases frames.len(),
{
    let inputs = frames.map_values(|t: Seq<char>| LoopInputModel::TextFrame(t));
    let outputs = frames.map_values(|t: Seq<char>| LoopActionModel::Deliver(event_decoded(t)->0));
    if frames.len() == 0 {
        assert(outputs =~= Seq::<LoopActionModel>::empty());
    } else {
        lemma_delivery_order(frames.drop_first());
        assert(inputs.drop_first() =~= frames.drop_first().map_values(
            |t: Seq<char>| LoopInputModel::TextFrame(t),
        ));
        assert(inputs[0] == LoopInputModel::TextFrame(frames[0]));
        assert(outputs =~= seq![LoopActionModel::Deliver(event_decoded(frames[0])->0)]
            + frames.drop_first().map_values(
            |t: Seq<char>| LoopActionModel::Deliver(event_decoded(t)->0),
        ));
    }
}

/// The connection entry point: validates the configuration and plans the
/// connection.
pub struct Asterisk;

/// What a validated connection configuration yields: the REST base (the
/// given URL with `ari` appended) and the exact event-stream URL.
pub struct ConnectPlan {
    pub base: BaseUrl,
    pub ws_url: String,
}

/// The query pairs of the event-stream URL, behind the credential: the
/// application name and the subscribe-to-everything flag.
pub open spec fn ws_query_pairs(app_name: Seq<char>) -> Seq<(Seq<char>, Seq<char>)> {
    seq![("app"@, app_name), ("subscribeAll"@, "true"@)]
}

/// The exact event-stream URL of a base: the scheme upgraded, `events`
/// appended to the path, and the credential, application name and
/// subscription flag as the query.
pub open spec fn ws_url_of(base: BaseUrlModel, api_key: Seq<char>, app_name: Seq<char>) -> Seq<
    char,
> {
    ws_rendered(BaseUrlModel { path: base.path + seq!["events"@], ..base }) + seq!['?']
        + authorized_query_rendered(api_key, ws_query_pairs(app_name))
}

impl Asterisk {
    /// Parses the configured URL and appends the API root segment `ari`.
    ///
    /// Fails with the configuration fault exactly when the string is not a
    /// well-formed `http` or `https` base URL.
    pub fn build_base_url(url_str: &str) -> (r: Result<BaseUrl, AriError>)
        ensures
            match r {
                Ok(b) => match parse_base_spec(url_str@) {
                    Ok(m) => wf_base(b@) && b@ == (BaseUrlModel {
                        path: m.path + seq!["ari"@],
                        ..m
                    }),
                    Err(_) => false,
                },
                Err(e) => match e {
                    AriError::UrlParse(f) => parse_base_spec(url_str@) == Err::<
                        BaseUrlModel,
                        UrlFault,
                    >(f),
                    _ => false,
                },
            },
    {
        let parsed = match BaseUrl::parse(url_str) {
            Ok(b) => b,
            Err(e) => {
                return Err(e);
            },
        };
        let mut segs: Vec<String> = Vec::new();
        segs.push(String::from_str("ari"));
        proof {
            reveal_strlit("ari");
            assert(segs.deep_view() =~= seq!["ari"@]);
            assert("ari"@.len() == 3);
            assert("ari"@[0] == 'a' && "ari"@[1] == 'r' && "ari"@[2] == 'i');
            assert(seg_ok("ari"@));
        }
        match parsed.join(&segs) {
            Ok(b) => Ok(b),
            Err(e) => {
                // Unreachable: the one segment appended is well formed.
                proof {
                    assert(seg_ok(segs.deep_view()[0]));
                    assert(false);
                }
                Err(e)
            },
        }
    }

    /// The exact event-stream URL for a base, credential and application.
    pub fn build_ws_url(base: &BaseUrl, api_key: &str, app_name: &str) -> (r: String)
        ensures
            r@ == ws_url_of(base@, api_key@, app_name@),
    {
        let mut segs: Vec<String> = Vec::new();
        segs.push(String::from_str("events"));
        proof {
            reveal_strlit("events");
            assert(segs.deep_view() =~= seq!["events"@]);
        }
        let mut path: Vec<String> = Vec::new();
        let mut i: usize = 0;
        while i < base.path.len()
            invariant
                i <= base.path.len(),
                path.deep_view() == base.path.deep_view().take(i as int),
            decreases base.path.len() - i,
        {
            let ghost prev = path.deep_view();
            path.push(base.path[i].clone());
            proof {
                assert(forall|t: int|
                    0 <= t < prev.len() ==> #[trigger] path.deep_view()[t] == prev[t]);
                assert(path.deep_view()[prev.len() as int] == base.path@[i as int]@);
                assert(path.deep_view() =~= base.path.deep_view().take(i + 1));
            }
            i += 1;
        }
        assert(base.path.deep_view().take(base.path.len() as int) =~= base.path.deep_view());
        path.push(String::from_str("events"));
        proof {
            reveal_strlit("events");
            assert(path.deep_view() =~= base.path.deep_view() + seq!["events"@]);
        }
        let with_events = BaseUrl {
            scheme: base.scheme,
            host: base.host.clone(),
            port: base.port,
            path,
        };
        let mut out = with_events.render_ws_chars();
        out.push('?');
        let mut pairs: Vec<QueryPair> = Vec::new();
        pairs.push(QueryPair { key: String::from_str("app"), value: app_name.to_owned() });
        pairs.push(
            QueryPair { key: String::from_str("subscribeAll"), value: String::from_str("true") },
        );
        proof {
            assert(pairs_model(pairs@) =~= ws_query_pairs(app_name@));
        }
        let mut q = crate::query::render_authorized_query(api_key, &pairs);
        out.append(&mut q);
        assert(out@ =~= ws_url_of(base@, api_key@, app_name@));
        string_of(out)
    }

    /// Validates a connection configuration: the base URL must parse and
    /// the scheme be supported; the plan holds the REST base and the exact
    /// event-stream URL with the credential and application embedded.
    pub fn connect_plan(url: &str, app_name: &str, username: &str, password: &str) -> (r: Result<
        ConnectPlan,
        AriError,
    >)
        ensures
            match r {
                Ok(plan) => match parse_base_spec(url@) {
                    Ok(m) => {
                        let base = BaseUrlModel { path: m.path + seq!["ari"@], ..m };
                        plan.base@ == base && plan.ws_url@ == ws_url_of(
                            base,
                            username@ + seq![':'] + password@,
                            app_name@,
                        )
                    },
                    Err(_) => false,
                },
                Err(e) => match e {
                    AriError::UrlParse(f) => parse_base_spec(url@) == Err::<
                        BaseUrlModel,
                        UrlFault,
                    >(f),
                    _ => false,
                },
            },
    {
        let base = match Self::build_base_url(url) {
            Ok(b) => b,
            Err(e) => {
                return Err(e);
            },
        };
        let api_key = crate::auth::Authorization::api_key(username, password);
        let ws_url = Self::build_ws_url(&base, api_key.as_str(), app_name);
        Ok(ConnectPlan { base, ws_url })
    }
}

} // verus!
