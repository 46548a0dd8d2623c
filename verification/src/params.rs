//! Typed parameter bags for the request operations.
//!
//! Each bag's fields map one-to-one onto query pairs, in declaration order:
//! an absent optional field produces no pair, a list-valued field is joined
//! into one comma-separated value (never repeated keys), numbers render in
//! decimal and flags as `true`/`false`.  Each bag states its exact pair
//! sequence as a spec function.

use vstd::prelude::*;
use vstd::string::StringExecFns;
use crate::query::{pairs_model, QueryPair};
use crate::text::{comma_joined, dec_of, dec_of_int, join_comma, render_dec_u64, string_of};

verus! {

/// The pair an optional text field contributes: one pair, or none.
pub open spec fn opt_str_pair(key: Seq<char>, v: Option<String>) -> Seq<(Seq<char>, Seq<char>)> {
    match v {
        Option::Some(s) => seq![(key, s@)],
        Option::None => Seq::empty(),
    }
}

/// The pair an optional number field contributes: its decimal rendering, or
/// none.
pub open spec fn opt_u32_pair(key: Seq<char>, v: Option<u32>) -> Seq<(Seq<char>, Seq<char>)> {
    match v {
        Option::Some(n) => seq![(key, dec_of(n as int))],
        Option::None => Seq::empty(),
    }
}

/// The pair a list field contributes: the comma-joined value, omitted when
/// the list is empty.
pub open spec fn list_pair(key: Seq<char>, items: Seq<Seq<char>>) -> Seq<(Seq<char>, Seq<char>)> {
    if items.len() == 0 {
        Seq::empty()
    } else {
        seq![(key, comma_joined(items))]
    }
}

pub(crate) fn push_pair(v: &mut Vec<QueryPair>, key: &str, value: String)
    ensures
        pairs_model(final(v)@) == pairs_model(old(v)@) + seq![(key@, value@)],
{
    let ghost prev = pairs_model(v@);
    v.push(QueryPair { key: key.to_owned(), value });
    proof {
        assert(pairs_model(v@) =~= prev + seq![(key@, v@[v@.len() - 1].value@)]);
    }
}

pub(crate) fn push_str(v: &mut Vec<QueryPair>, key: &str, value: &String)
    ensures
        pairs_model(final(v)@) == pairs_model(old(v)@) + seq![(key@, value@)],
{
    push_pair(v, key, value.clone());
}

pub(crate) fn push_opt_str(v: &mut Vec<QueryPair>, key: &str, value: &Option<String>)
    ensures
        pairs_model(final(v)@) == pairs_model(old(v)@) + opt_str_pair(key@, *value),
{
    match value {
        Option::Some(s) => push_pair(v, key, s.clone()),
        Option::None => {
            assert(pairs_model(v@) =~= pairs_model(v@) + opt_str_pair(key@, *value));
        },
    }
}

pub(crate) fn push_u32(v: &mut Vec<QueryPair>, key: &str, value: u32)
    ensures
        pairs_model(final(v)@) == pairs_model(old(v)@) + seq![(key@, dec_of(value as int))],
{
    push_pair(v, key, string_of(render_dec_u64(value as u64)));
}

pub(crate) fn push_opt_u32(v: &mut Vec<QueryPair>, key: &str, value: &Option<u32>)
    ensures
        pairs_model(final(v)@) == pairs_model(old(v)@) + opt_u32_pair(key@, *value),
{
    match value {
        Option::Some(n) => push_u32(v, key, *n),
        Option::None => {
            assert(pairs_model(v@) =~= pairs_model(v@) + opt_u32_pair(key@, *value));
        },
    }
}

pub(crate) fn push_list(v: &mut Vec<QueryPair>, key: &str, items: &Vec<String>)
    ensures
        pairs_model(final(v)@) == pairs_model(old(v)@) + list_pair(key@, items.deep_view()),
{
    if items.len() == 0 {
        assert(pairs_model(v@) =~= pairs_model(v@) + list_pair(key@, items.deep_view()));
        return ;
    }
    let mut chars: Vec<Vec<char>> = Vec::new();
    let mut i: usize = 0;
    while i < items.len()
        invariant
            i <= items.len(),
            chars.deep_view() == items.deep_view().take(i as int),
        decreases items.len() - i,
    {
        let ghost prev = chars.deep_view();
        chars.push(crate::text::chars_of(items[i].as_str()));
        proof {
            assert(forall|t: int|
                0 <= t < prev.len() ==> #[trigger] chars.deep_view()[t] == prev[t]);
            assert(chars.deep_view()[prev.len() as int] == items@[i as int]@);
            assert(chars.deep_view() =~= items.deep_view().take(i + 1));
        }
        i += 1;
    }
    assert(items.deep_view().take(items.len() as int) =~= items.deep_view());
    let joined = join_comma(&chars);
    push_pair(v, key, string_of(joined));
}

/// Appends a list field joined into one comma-separated value, present
/// even when the list is empty.
pub(crate) fn push_joined_list(v: &mut Vec<QueryPair>, key: &str, items: &Vec<String>)
    ensures
        pairs_model(final(v)@) == pairs_model(old(v)@) + seq![
            (key@, comma_joined(items.deep_view())),
        ],
{
    let mut chars: Vec<Vec<char>> = Vec::new();
    let mut i: usize = 0;
    while i < items.len()
        invariant
            i <= items.len(),
            chars.deep_view() == items.deep_view().take(i as int),
        decreases items.len() - i,
    {
        let ghost prev = chars.deep_view();
        chars.push(crate::text::chars_of(items[i].as_str()));
        proof {
            assert(forall|t: int|
                0 <= t < prev.len() ==> #[trigger] chars.deep_view()[t] == prev[t]);
            assert(chars.deep_view()[prev.len() as int] == items@[i as int]@);
            assert(chars.deep_view() =~= items.deep_view().take(i + 1));
        }
        i += 1;
    }
    assert(items.deep_view().take(items.len() as int) =~= items.deep_view());
    push_pair(v, key, string_of(join_comma(&chars)));
}

/// The media direction a mute or snoop operation applies to.
#[derive(Clone, Copy, Debug, PartialEq, Eq, Structural)]
pub enum Direction {
    In,
    Out,
    Both,
}

/// The query value of a direction.
pub open spec fn direction_value(d: Direction) -> Seq<char> {
    match d {
        Direction::In => "in"@,
        Direction::Out => "out"@,
        Direction::Both => "both"@,
    }
}

impl Direction {
    /// The single pair a direction contributes.
    pub open spec fn spec_pairs(self) -> Seq<(Seq<char>, Seq<char>)> {
        seq![("direction"@, direction_value(self))]
    }

    /// The query pairs of this bag.
    pub fn query_pairs(&self) -> (r: Vec<QueryPair>)
        ensures
            pairs_model(r@) == self.spec_pairs(),
    {
        let mut v: Vec<QueryPair> = Vec::new();
        match self {
            Direction::In => push_pair(&mut v, "direction", String::from_str("in")),
            Direction::Out => push_pair(&mut v, "direction", String::from_str("out")),
            Direction::Both => push_pair(&mut v, "direction", String::from_str("both")),
        }
        assert(pairs_model(v@) =~= self.spec_pairs());
        v
    }
}

/// The reason given when hanging a call leg up: a numeric cause code, or
/// one of the symbolic reasons.
#[derive(Clone, Copy, Debug, PartialEq, Eq, Structural)]
pub enum Reason {
    Code(u16),
    Normal,
    Busy,
    Congestion,
    NoAnswer,
    Timeout,
    Rejected,
    Unallocated,
    NormalUnspecified,
    NumberIncomplete,
    CodecMismatch,
    Interworking,
    Failure,
    AnsweredElsewhere,
}

/// The query value of a symbolic reason.
pub open spec fn reason_value(r: Reason) -> Seq<char> {
    match r {
        Reason::Code(_) => Seq::empty(),
        Reason::Normal => "normal"@,
        Reason::Busy => "busy"@,
        Reason::Congestion => "congestion"@,
        Reason::NoAnswer => "no_answer"@,
        Reason::Timeout => "timeout"@,
        Reason::Rejected => "rejected"@,
        Reason::Unallocated => "unallocated"@,
        Reason::NormalUnspecified => "normal_unspecified"@,
        Reason::NumberIncomplete => "number_incomplete"@,
        Reason::CodecMismatch => "codec_mismatch"@,
        Reason::Interworking => "interworking"@,
        Reason::Failure => "failure"@,
        Reason::AnsweredElsewhere => "answered_elsewhere"@,
    }
}

impl Reason {
    /// The single pair a reason contributes: `reason_code` for a numeric
    /// code, `reason` for a symbolic one.
    pub open spec fn spec_pairs(self) -> Seq<(Seq<char>, Seq<char>)> {
        match self {
            Reason::Code(c) => seq![("reason_code"@, dec_of(c as int))],
            _ => seq![("reason"@, reason_value(self))],
        }
    }

    /// The query pairs of this bag.
    pub fn query_pairs(&self) -> (r: Vec<QueryPair>)
        ensures
            pairs_model(r@) == self.spec_pairs(),
    {
        let mut v: Vec<QueryPair> = Vec::new();
        match self {
            Reason::Code(c) => push_u32(&mut v, "reason_code", *c as u32),
            Reason::Normal => push_pair(&mut v, "reason", String::from_str("normal")),
            Reason::Busy => push_pair(&mut v, "reason", String::from_str("busy")),
            Reason::Congestion => push_pair(&mut v, "reason", String::from_str("congestion")),
            Reason::NoAnswer => push_pair(&mut v, "reason", String::from_str("no_answer")),
            Reason::Timeout => push_pair(&mut v, "reason", String::from_str("timeout")),
            Reason::Rejected => push_pair(&mut v, "reason", String::from_str("rejected")),
            Reason::Unallocated => push_pair(&mut v, "reason", String::from_str("unallocated")),
            Reason::NormalUnspecified => push_pair(
                &mut v,
                "reason",
                String::from_str("normal_unspecified"),
            ),
            Reason::NumberIncomplete => push_pair(
                &mut v,
                "reason",
                String::from_str("number_incomplete"),
            ),
            Reason::CodecMismatch => push_pair(
                &mut v,
                "reason",
                String::from_str("codec_mismatch"),
            ),
            Reason::Interworking => push_pair(&mut v, "reason", String::from_str("interworking")),
            Reason::Failure => push_pair(&mut v, "reason", String::from_str("failure")),
            Reason::AnsweredElsewhere => push_pair(
                &mut v,
                "reason",
                String::from_str("answered_elsewhere"),
            ),
        }
        assert(pairs_model(v@) =~= self.spec_pairs());
        v
    }
}

/// What a recording does when a recording of the same name exists.
#[derive(Clone, Copy, Debug, PartialEq, Eq, Structural)]
pub enum RecordingAction {
    Overwrite,
    Append,
    Fail,
}

/// The query value of a recording action.
pub open spec fn recording_action_value(a: RecordingAction) -> Seq<char> {
    match a {
        RecordingAction::Overwrite => "overwrite"@,
        RecordingAction::Append => "append"@,
        RecordingAction::Fail => "fail"@,
    }
}

fn recording_action_string(a: &RecordingAction) -> (r: String)
    ensures
        r@ == recording_action_value(*a),
{
    match a {
        RecordingAction::Overwrite => String::from_str("overwrite"),
        RecordingAction::Append => String::from_str("append"),
        RecordingAction::Fail => String::from_str("fail"),
    }
}

/// The DTMF key that ends a recording.
#[derive(Clone, Copy, Debug, PartialEq, Eq, Structural)]
pub enum RecordingTermination {
    NoKey,
    Any,
    Asterisk,
    Octothorpe,
}

/// The query value of a termination key.
pub open spec fn recording_termination_value(t: RecordingTermination) -> Seq<char> {
    match t {
        RecordingTermination::NoKey => "none"@,
        RecordingTermination::Any => "any"@,
        RecordingTermination::Asterisk => "*"@,
        RecordingTermination::Octothorpe => "#"@,
    }
}

fn recording_termination_string(t: &RecordingTermination) -> (r: String)
    ensures
        r@ == recording_termination_value(*t),
{
    match t {
        RecordingTermination::NoKey => String::from_str("none"),
        RecordingTermination::Any => String::from_str("any"),
        RecordingTermination::Asterisk => String::from_str("*"),
        RecordingTermination::Octothorpe => String::from_str("#"),
    }
}

/// Where an originated call goes once answered: a dialplan position, or a
/// client application.
pub enum OriginateParams {
    Extension { extension: String, context: Option<String>, priority: Option<i32>, label: Option<
        String,
    > },
    Application { app: String, app_args: Vec<String> },
}

/// The pair an optional dialplan priority contributes.
pub open spec fn opt_priority_pair(v: Option<i32>) -> Seq<(Seq<char>, Seq<char>)> {
    match v {
        Option::Some(n) => seq![("priority"@, dec_of_int(n as int))],
        Option::None => Seq::empty(),
    }
}

impl OriginateParams {
    /// The pairs these parameters contribute, flattened at their position.
    pub open spec fn spec_pairs(self) -> Seq<(Seq<char>, Seq<char>)> {
        match self {
            OriginateParams::Extension { extension, context, priority, label } => seq![
                ("extension"@, extension@),
            ] + opt_str_pair("context"@, context) + opt_priority_pair(priority) + opt_str_pair(
                "label"@,
                label,
            ),
            OriginateParams::Application { app, app_args } => seq![("app"@, app@)] + list_pair(
                "appArgs"@,
                app_args.deep_view(),
            ),
        }
    }

    /// The query pairs of this bag.
    pub fn query_pairs(&self) -> (r: Vec<QueryPair>)
        ensures
            pairs_model(r@) == self.spec_pairs(),
    {
        let mut v: Vec<QueryPair> = Vec::new();
        match self {
            OriginateParams::Extension { extension, context, priority, label } => {
                push_str(&mut v, "extension", extension);
                push_opt_str(&mut v, "context", context);
                match priority {
                    Option::Some(p) => {
                        let rendered = string_of(crate::text::render_dec_i64(*p as i64));
                        push_pair(&mut v, "priority", rendered);
                    },
                    Option::None => {},
                }
                push_opt_str(&mut v, "label", label);
            },
            OriginateParams::Application { app, app_args } => {
                push_str(&mut v, "app", app);
                push_list(&mut v, "appArgs", app_args);
            },
        }
        assert(pairs_model(v@) =~= self.spec_pairs());
        v
    }
}

/// Parameters for originating a call leg.
pub struct OriginateChannelParams {
    pub endpoint: String,
    pub params: OriginateParams,
    pub caller_id: Option<String>,
    pub timeout: Option<u32>,
    pub channel_id: Option<String>,
    pub other_channel_id: Option<String>,
    pub originator: Option<String>,
    pub formats: Vec<String>,
}

impl OriginateChannelParams {
    /// The exact pair sequence of this bag, fields in declaration order.
    pub open spec fn spec_pairs(self) -> Seq<(Seq<char>, Seq<char>)> {
        seq![("endpoint"@, self.endpoint@)] + self.params.spec_pairs() + opt_str_pair(
            "callerId"@,
            self.caller_id,
        ) + opt_u32_pair("timeout"@, self.timeout) + opt_str_pair("channelId"@, self.channel_id)
            + opt_str_pair("otherChannelId"@, self.other_channel_id) + opt_str_pair(
            "originator"@,
            self.originator,
        ) + list_pair("formats"@, self.formats.deep_view())
    }

    /// The query pairs of this bag.
    pub fn query_pairs(&self) -> (r: Vec<QueryPair>)
        ensures
            pairs_model(r@) == self.spec_pairs(),
    {
        let mut v: Vec<QueryPair> = Vec::new();
        push_str(&mut v, "endpoint", &self.endpoint);
        let mut inner = self.params.query_pairs();
        let ghost before = pairs_model(v@);
        let ghost inner_model = pairs_model(inner@);
        v.append(&mut inner);
        proof {
            assert(pairs_model(v@) =~= before + inner_model);
        }
        push_opt_str(&mut v, "callerId", &self.caller_id);
        push_opt_u32(&mut v, "timeout", &self.timeout);
        push_opt_str(&mut v, "channelId", &self.channel_id);
        push_opt_str(&mut v, "otherChannelId", &self.other_channel_id);
        push_opt_str(&mut v, "originator", &self.originator);
        push_list(&mut v, "formats", &self.formats);
        assert(pairs_model(v@) =~= self.spec_pairs());
        v
    }
}

/// Parameters for originating a call leg under a caller-chosen identifier.
pub struct OriginateChannelWithIdParams {
    pub endpoint: String,
    pub params: OriginateParams,
    pub caller_id: Option<String>,
    pub timeout: Option<u32>,
    pub other_channel_id: Option<String>,
    pub originator: Option<String>,
    pub formats: Vec<String>,
}

impl OriginateChannelWithIdParams {
    /// The exact pair sequence of this bag, fields in declaration order.
    pub open spec fn spec_pairs(self) -> Seq<(Seq<char>, Seq<char>)> {
        seq![("endpoint"@, self.endpoint@)] + self.params.spec_pairs() + opt_str_pair(
            "callerId"@,
            self.caller_id,
        ) + opt_u32_pair("timeout"@, self.timeout) + opt_str_pair(
            "otherChannelId"@,
            self.other_channel_id,
        ) + opt_str_pair("originator"@, self.originator) + list_pair(
            "formats"@,
            self.formats.deep_view(),
        )
    }

    /// The query pairs of this bag.
    pub fn query_pairs(&self) -> (r: Vec<QueryPair>)
        ensures
            pairs_model(r@) == self.spec_pairs(),
    {
        let mut v: Vec<QueryPair> = Vec::new();
        push_str(&mut v, "endpoint", &self.endpoint);
        let mut inner = self.params.query_pairs();
        let ghost before = pairs_model(v@);
        let ghost inner_model = pairs_model(inner@);
        v.append(&mut inner);
        proof {
            assert(pairs_model(v@) =~= before + inner_model);
        }
        push_opt_str(&mut v, "callerId", &self.caller_id);
        push_opt_u32(&mut v, "timeout", &self.timeout);
        push_opt_str(&mut v, "otherChannelId", &self.other_channel_id);
        push_opt_str(&mut v, "originator", &self.originator);
        push_list(&mut v, "formats", &self.formats);
        assert(pairs_model(v@) =~= self.spec_pairs());
        v
    }
}

/// Parameters for sending DTMF digits; durations are in milliseconds.
pub struct SendDtmfParams {
    pub dtmf: String,
    pub between: Option<u32>,
    pub duration: Option<u32>,
    pub before: Option<u32>,
    pub after: Option<u32>,
}

impl SendDtmfParams {
    /// The exact pair sequence of this bag, fields in declaration order.
    pub open spec fn spec_pairs(self) -> Seq<(Seq<char>, Seq<char>)> {
        seq![("dtmf"@, self.dtmf@)] + opt_u32_pair("between"@, self.between) + opt_u32_pair(
            "duration"@,
            self.duration,
        ) + opt_u32_pair("before"@, self.before) + opt_u32_pair("after"@, self.after)
    }

    /// The query pairs of this bag.
    pub fn query_pairs(&self) -> (r: Vec<QueryPair>)
        ensures
            pairs_model(r@) == self.spec_pairs(),
    {
        let mut v: Vec<QueryPair> = Vec::new();
        push_str(&mut v, "dtmf", &self.dtmf);
        push_opt_u32(&mut v, "between", &self.between);
        push_opt_u32(&mut v, "duration", &self.duration);
        push_opt_u32(&mut v, "before", &self.before);
        push_opt_u32(&mut v, "after", &self.after);
        assert(pairs_model(v@) =~= self.spec_pairs());
        v
    }
}

/// The common playback parameters: media list, language, offset and skip.
pub struct PlayMediaBaseParams {
    pub media: Vec<String>,
    pub lang: Option<String>,
    pub offset_ms: Option<u32>,
    pub skip_ms: Option<u32>,
}

impl PlayMediaBaseParams {
    /// The exact pair sequence: the media list is always joined into one
    /// `media` value, even when empty.
    pub open spec fn spec_pairs(self) -> Seq<(Seq<char>, Seq<char>)> {
        seq![("media"@, comma_joined(self.media.deep_view()))] + opt_str_pair("lang"@, self.lang)
            + opt_u32_pair("offsetms"@, self.offset_ms) + opt_u32_pair("skipms"@, self.skip_ms)
    }

    /// The query pairs of this bag.
    pub fn query_pairs(&self) -> (r: Vec<QueryPair>)
        ensures
            pairs_model(r@) == self.spec_pairs(),
    {
        let mut v: Vec<QueryPair> = Vec::new();
        push_joined_list(&mut v, "media", &self.media);
        push_opt_str(&mut v, "lang", &self.lang);
        push_opt_u32(&mut v, "offsetms", &self.offset_ms);
        push_opt_u32(&mut v, "skipms", &self.skip_ms);
        assert(pairs_model(v@) =~= self.spec_pairs());
        v
    }
}

/// Parameters for starting a playback, optionally under a chosen identifier.
pub struct PlayMediaParams {
    pub playback_id: Option<String>,
    pub base_params: PlayMediaBaseParams,
}

impl PlayMediaParams {
    /// The exact pair sequence: the optional identifier first, then the
    /// base parameters flattened.
    pub open spec fn spec_pairs(self) -> Seq<(Seq<char>, Seq<char>)> {
        opt_str_pair("playbackId"@, self.playback_id) + self.base_params.spec_pairs()
    }

    /// The query pairs of this bag.
    pub fn query_pairs(&self) -> (r: Vec<QueryPair>)
        ensures
            pairs_model(r@) == self.spec_pairs(),
    {
        let mut v: Vec<QueryPair> = Vec::new();
        push_opt_str(&mut v, "playbackId", &self.playback_id);
        let mut inner = self.base_params.query_pairs();
        let ghost before = pairs_model(v@);
        let ghost inner_model = pairs_model(inner@);
        v.append(&mut inner);
        proof {
            assert(pairs_model(v@) =~= before + inner_model);
        }
        assert(pairs_model(v@) =~= self.spec_pairs());
        v
    }
}

/// Parameters for recording a call leg.
pub struct RecordParams {
    pub name: String,
    pub format: String,
    pub max_duration_seconds: Option<u32>,
    pub max_silence_seconds: Option<u32>,
    pub if_exists: RecordingAction,
    pub beep: bool,
    pub terminate_on: RecordingTermination,
}

/// The query value of a flag.
pub open spec fn bool_value(b: bool) -> Seq<char> {
    if b {
        "true"@
    } else {
        "false"@
    }
}

impl RecordParams {
    /// The exact pair sequence of this bag, fields in declaration order.
    pub open spec fn spec_pairs(self) -> Seq<(Seq<char>, Seq<char>)> {
        seq![("name"@, self.name@), ("format"@, self.format@)] + opt_u32_pair(
            "maxDurationSeconds"@,
            self.max_duration_seconds,
        ) + opt_u32_pair("maxSilenceSeconds"@, self.max_silence_seconds) + seq![
            ("ifExists"@, recording_action_value(self.if_exists)),
            ("beep"@, bool_value(self.beep)),
            ("terminateOn"@, recording_termination_value(self.terminate_on)),
        ]
    }

    /// The query pairs of this bag.
    pub fn query_pairs(&self) -> (r: Vec<QueryPair>)
        ensures
            pairs_model(r@) == self.spec_pairs(),
    {
        let mut v: Vec<QueryPair> = Vec::new();
        push_str(&mut v, "name", &self.name);
        push_str(&mut v, "format", &self.format);
        push_opt_u32(&mut v, "maxDurationSeconds", &self.max_duration_seconds);
        push_opt_u32(&mut v, "maxSilenceSeconds", &self.max_silence_seconds);
        push_pair(&mut v, "ifExists", recording_action_string(&self.if_exists));
        if self.beep {
            push_pair(&mut v, "beep", String::from_str("true"));
        } else {
            push_pair(&mut v, "beep", String::from_str("false"));
        }
        push_pair(&mut v, "terminateOn", recording_termination_string(&self.terminate_on));
        assert(pairs_model(v@) =~= self.spec_pairs());
        v
    }
}

/// Parameters for dialing a created call leg.
pub struct DialParams {
    pub caller: Option<String>,
    pub timeout: Option<u32>,
}

impl DialParams {
    /// The exact pair sequence of this bag, fields in declaration order.
    pub open spec fn spec_pairs(self) -> Seq<(Seq<char>, Seq<char>)> {
        opt_str_pair("caller"@, self.caller) + opt_u32_pair("timeout"@, self.timeout)
    }

    /// The query pairs of this bag.
    pub fn query_pairs(&self) -> (r: Vec<QueryPair>)
        ensures
            pairs_model(r@) == self.spec_pairs(),
    {
        let mut v: Vec<QueryPair> = Vec::new();
        push_opt_str(&mut v, "caller", &self.caller);
        push_opt_u32(&mut v, "timeout", &self.timeout);
        assert(pairs_model(v@) =~= self.spec_pairs());
        v
    }
}

/// Parameters for creating a call leg without dialing it.
pub struct ChannelCreateParams {
    pub endpoint: String,
    pub app: String,
    pub app_args: Vec<String>,
    pub channel_id: Option<String>,
    pub other_channel_id: Option<String>,
    pub originator: Option<String>,
    pub formats: Vec<String>,
}

impl ChannelCreateParams {
    /// The exact pair sequence of this bag, fields in declaration order.
    pub open spec fn spec_pairs(self) -> Seq<(Seq<char>, Seq<char>)> {
        seq![("endpoint"@, self.endpoint@), ("app"@, self.app@)] + list_pair(
            "appArgs"@,
            self.app_args.deep_view(),
        ) + opt_str_pair("channelId"@, self.channel_id) + opt_str_pair(
            "otherChannelId"@,
            self.other_channel_id,
        ) + opt_str_pair("originator"@, self.originator) + list_pair(
            "formats"@,
            self.formats.deep_view(),
        )
    }

    /// The query pairs of this bag.
    pub fn query_pairs(&self) -> (r: Vec<QueryPair>)
        ensures
            pairs_model(r@) == self.spec_pairs(),
    {
        let mut v: Vec<QueryPair> = Vec::new();
        push_str(&mut v, "endpoint", &self.endpoint);
        push_str(&mut v, "app", &self.app);
        push_list(&mut v, "appArgs", &self.app_args);
        push_opt_str(&mut v, "channelId", &self.channel_id);
        push_opt_str(&mut v, "otherChannelId", &self.other_channel_id);
        push_opt_str(&mut v, "originator", &self.originator);
        push_list(&mut v, "formats", &self.formats);
        assert(pairs_model(v@) =~= self.spec_pairs());
        v
    }
}

} // verus!
