//! Call-leg resources: the channel snapshot and its nested caller and
//! dialplan records, with their JSON decodings, plus the flat playback
//! parameter bags whose fields map one-to-one onto query pairs.

use vstd::prelude::*;
use vstd::string::StringExecFns;
use crate::json::{
    int_field, jmodel, jmodel_members_vec, obj_get, obj_lookup, str_field, Json, JsonData, Member,
};
use crate::query::{pairs_model, QueryPair};
use crate::text::comma_joined;

verus! {

/// A caller identification: display name and number.
pub struct Caller {
    pub name: String,
    pub number: String,
}

/// The model of a caller identification.
pub ghost struct CallerModel {
    pub name: Seq<char>,
    pub number: Seq<char>,
}

impl View for Caller {
    type V = CallerModel;

    open spec fn view(&self) -> CallerModel {
        CallerModel { name: self.name@, number: self.number@ }
    }
}

/// A dialplan position: context, extension, priority and current
/// application.
pub struct Dialplan {
    pub context: String,
    pub exten: String,
    pub priority: i32,
    pub app_name: String,
    pub app_data: String,
}

/// The model of a dialplan position.
pub ghost struct DialplanModel {
    pub context: Seq<char>,
    pub exten: Seq<char>,
    pub priority: int,
    pub app_name: Seq<char>,
    pub app_data: Seq<char>,
}

impl View for Dialplan {
    type V = DialplanModel;

    open spec fn view(&self) -> DialplanModel {
        DialplanModel {
            context: self.context@,
            exten: self.exten@,
            priority: self.priority as int,
            app_name: self.app_name@,
            app_data: self.app_data@,
        }
    }
}

/// A call-leg snapshot, as the server reported it.
pub struct Channel {
    pub id: String,
    pub name: String,
    pub state: String,
    pub protocol_id: String,
    pub caller: Caller,
    pub connected: Caller,
    pub accountcode: String,
    pub dialplan: Dialplan,
    pub creationtime: String,
    pub language: String,
}

/// The model of a call-leg snapshot.
pub ghost struct ChannelModel {
    pub id: Seq<char>,
    pub name: Seq<char>,
    pub state: Seq<char>,
    pub protocol_id: Seq<char>,
    pub caller: CallerModel,
    pub connected: CallerModel,
    pub accountcode: Seq<char>,
    pub dialplan: DialplanModel,
    pub creationtime: Seq<char>,
    pub language: Seq<char>,
}

impl View for Channel {
    type V = ChannelModel;

    open spec fn view(&self) -> ChannelModel {
        ChannelModel {
            id: self.id@,
            name: self.name@,
            state: self.state@,
            protocol_id: self.protocol_id@,
            caller: self.caller@,
            connected: self.connected@,
            accountcode: self.accountcode@,
            dialplan: self.dialplan@,
            creationtime: self.creationtime@,
            language: self.language@,
        }
    }
}

impl DeepView for Channel {
    type V = ChannelModel;

    open spec fn deep_view(&self) -> ChannelModel {
        self.view()
    }
}

/// The caller a JSON value decodes to, if its members carry one.
pub open spec fn caller_of_json(d: JsonData) -> Option<CallerModel> {
    match d {
        JsonData::Obj(ms) => match (str_field(ms, "name"@), str_field(ms, "number"@)) {
            (Some(name), Some(number)) => Some(CallerModel { name, number }),
            _ => None,
        },
        _ => None,
    }
}

/// The encoding of a caller.
pub open spec fn caller_to_json(c: CallerModel) -> JsonData {
    JsonData::Obj(
        seq![("name"@, JsonData::Str(c.name)), ("number"@, JsonData::Str(c.number))],
    )
}

/// The dialplan position a JSON value decodes to, if its members carry one
/// with a priority in range.
pub open spec fn dialplan_of_json(d: JsonData) -> Option<DialplanModel> {
    match d {
        JsonData::Obj(ms) => match (
            str_field(ms, "context"@),
            str_field(ms, "exten"@),
            int_field(ms, "priority"@),
            str_field(ms, "app_name"@),
            str_field(ms, "app_data"@),
        ) {
            (Some(context), Some(exten), Some(priority), Some(app_name), Some(app_data)) => {
                if i32::MIN <= priority <= i32::MAX {
                    Some(DialplanModel { context, exten, priority, app_name, app_data })
                } else {
                    None
                }
            },
            _ => None,
        },
        _ => None,
    }
}

/// The encoding of a dialplan position.
pub open spec fn dialplan_to_json(p: DialplanModel) -> JsonData {
    JsonData::Obj(
        seq![
            ("context"@, JsonData::Str(p.context)),
            ("exten"@, JsonData::Str(p.exten)),
            ("priority"@, JsonData::Int(p.priority)),
            ("app_name"@, JsonData::Str(p.app_name)),
            ("app_data"@, JsonData::Str(p.app_data)),
        ],
    )
}

/// The channel snapshot a JSON value decodes to, if its members carry one.
pub open spec fn channel_of_json(d: JsonData) -> Option<ChannelModel> {
    match d {
        JsonData::Obj(ms) => match (
            str_field(ms, "id"@),
            str_field(ms, "name"@),
            str_field(ms, "state"@),
            str_field(ms, "protocol_id"@),
            obj_lookup(ms, "caller"@),
            obj_lookup(ms, "connected"@),
            str_field(ms, "accountcode"@),
            obj_lookup(ms, "dialplan"@),
            str_field(ms, "creationtime"@),
            str_field(ms, "language"@),
        ) {
            (
                Some(id),
                Some(name),
                Some(state),
                Some(protocol_id),
                Some(caller_json),
                Some(connected_json),
                Some(accountcode),
                Some(dialplan_json),
                Some(creationtime),
                Some(language),
            ) => {
                match (
                    caller_of_json(caller_json),
                    caller_of_json(connected_json),
                    dialplan_of_json(dialplan_json),
                ) {
                    (Some(caller), Some(connected), Some(dialplan)) => Some(
                        ChannelModel {
                            id,
                            name,
                            state,
                            protocol_id,
                            caller,
                            connected,
                            accountcode,
                            dialplan,
                            creationtime,
                            language,
                        },
                    ),
                    _ => None,
                }
            },
            _ => None,
        },
        _ => None,
    }
}

/// The encoding of a channel snapshot.
pub open spec fn channel_to_json(c: ChannelModel) -> JsonData {
    JsonData::Obj(
        seq![
            ("id"@, JsonData::Str(c.id)),
            ("name"@, JsonData::Str(c.name)),
            ("state"@, JsonData::Str(c.state)),
            ("protocol_id"@, JsonData::Str(c.protocol_id)),
            ("caller"@, caller_to_json(c.caller)),
            ("connected"@, caller_to_json(c.connected)),
            ("accountcode"@, JsonData::Str(c.accountcode)),
            ("dialplan"@, dialplan_to_json(c.dialplan)),
            ("creationtime"@, JsonData::Str(c.creationtime)),
            ("language"@, JsonData::Str(c.language)),
        ],
    )
}

impl Caller {
    /// Decodes a caller from a JSON value.
    pub fn from_json(j: &Json) -> (r: Option<Caller>)
        ensures
            match r {
                Some(c) => caller_of_json(jmodel(*j)) == Some(c@),
                None => caller_of_json(jmodel(*j)) is None,
            },
    {
        match j {
            Json::Obj(ms) => {
                let name = crate::json::get_str(ms, "name");
                let number = crate::json::get_str(ms, "number");
                match (name, number) {
                    (Some(name), Some(number)) => Some(Caller { name, number }),
                    _ => None,
                }
            },
            _ => None,
        }
    }

    /// Encodes this caller as a JSON value.
    pub fn to_json(&self) -> (r: Json)
        ensures
            jmodel(r) == caller_to_json(self@),
    {
        let mut ms: Vec<Member> = Vec::new();
        ms.push(Member { key: String::from_str("name"), value: Json::Str(self.name.clone()) });
        ms.push(Member { key: String::from_str("number"), value: Json::Str(self.number.clone()) });
        let r = Json::Obj(ms);
        proof {
            lemma_member_model(r);
            assert(jmodel(r)->Obj_0 =~= caller_to_json(self@)->Obj_0);
        }
        r
    }
}

/// The member models of an object value, pointwise; a helper for encoders.
pub proof fn lemma_member_model(j: Json)
    requires
        j is Obj,
    ensures
        jmodel(j)->Obj_0.len() == j->Obj_0@.len(),
        forall|k: int|
            0 <= k < j->Obj_0@.len() ==> #[trigger] jmodel(j)->Obj_0[k] == (
            j->Obj_0@[k].key@,
            jmodel(j->Obj_0@[k].value),
            ),
{
    crate::json::lemma_jmodel_members_seq(j->Obj_0@);
}

impl Dialplan {
    /// Decodes a dialplan position from a JSON value.
    pub fn from_json(j: &Json) -> (r: Option<Dialplan>)
        ensures
            match r {
                Some(p) => dialplan_of_json(jmodel(*j)) == Some(p@),
                None => dialplan_of_json(jmodel(*j)) is None,
            },
    {
        match j {
            Json::Obj(ms) => {
                let context = crate::json::get_str(ms, "context");
                let exten = crate::json::get_str(ms, "exten");
                let priority = crate::json::get_i64(ms, "priority");
                let app_name = crate::json::get_str(ms, "app_name");
                let app_data = crate::json::get_str(ms, "app_data");
                match (context, exten, priority, app_name, app_data) {
                    (Some(context), Some(exten), Some(priority), Some(app_name), Some(app_data)) => {
                        if i32::MIN as i64 <= priority && priority <= i32::MAX as i64 {
                            Some(
                                Dialplan {
                                    context,
                                    exten,
                                    priority: priority as i32,
                                    app_name,
                                    app_data,
                                },
                            )
                        } else {
                            None
                        }
                    },
                    _ => None,
                }
            },
            _ => None,
        }
    }

    /// Encodes this dialplan position as a JSON value.
    pub fn to_json(&self) -> (r: Json)
        ensures
            jmodel(r) == dialplan_to_json(self@),
    {
        let mut ms: Vec<Member> = Vec::new();
        ms.push(Member { key: String::from_str("context"), value: Json::Str(self.context.clone()) });
        ms.push(Member { key: String::from_str("exten"), value: Json::Str(self.exten.clone()) });
        ms.push(Member { key: String::from_str("priority"), value: Json::Int(self.priority as i64) });
        ms.push(
            Member { key: String::from_str("app_name"), value: Json::Str(self.app_name.clone()) },
        );
        ms.push(
            Member { key: String::from_str("app_data"), value: Json::Str(self.app_data.clone()) },
        );
        let r = Json::Obj(ms);
        proof {
            lemma_member_model(r);
            assert(jmodel(r)->Obj_0 =~= dialplan_to_json(self@)->Obj_0);
        }
        r
    }
}

impl Channel {
    /// Decodes a channel snapshot from a JSON value.
    pub fn from_json(j: &Json) -> (r: Option<Channel>)
        ensures
            match r {
                Some(c) => channel_of_json(jmodel(*j)) == Some(c@),
                None => channel_of_json(jmodel(*j)) is None,
            },
    {
        match j {
            Json::Obj(ms) => {
                let id = crate::json::get_str(ms, "id");
                let name = crate::json::get_str(ms, "name");
                let state = crate::json::get_str(ms, "state");
                let protocol_id = crate::json::get_str(ms, "protocol_id");
                let caller_json = obj_get(ms, "caller");
                let connected_json = obj_get(ms, "connected");
                let accountcode = crate::json::get_str(ms, "accountcode");
                let dialplan_json = obj_get(ms, "dialplan");
                let creationtime = crate::json::get_str(ms, "creationtime");
                let language = crate::json::get_str(ms, "language");
                match (
                    id,
                    name,
                    state,
                    protocol_id,
                    caller_json,
                    connected_json,
                    accountcode,
                    dialplan_json,
                    creationtime,
                    language,
                ) {
                    (
                        Some(id),
                        Some(name),
                        Some(state),
                        Some(protocol_id),
                        Some(caller_json),
                        Some(connected_json),
                        Some(accountcode),
                        Some(dialplan_json),
                        Some(creationtime),
                        Some(language),
                    ) => {
                        let caller = Caller::from_json(caller_json);
                        let connected = Caller::from_json(connected_json);
                        let dialplan = Dialplan::from_json(dialplan_json);
                        match (caller, connected, dialplan) {
                            (Some(caller), Some(connected), Some(dialplan)) => Some(
                                Channel {
                                    id,
                                    name,
                                    state,
                                    protocol_id,
                                    caller,
                                    connected,
                                    accountcode,
                                    dialplan,
                                    creationtime,
                                    language,
                                },
                            ),
                            _ => None,
                        }
                    },
                    _ => None,
                }
            },
            _ => None,
        }
    }

    /// Encodes this channel snapshot as a JSON value.
    pub fn to_json(&self) -> (r: Json)
        ensures
            jmodel(r) == channel_to_json(self@),
    {
        let mut ms: Vec<Member> = Vec::new();
        ms.push(Member { key: String::from_str("id"), value: Json::Str(self.id.clone()) });
        ms.push(Member { key: String::from_str("name"), value: Json::Str(self.name.clone()) });
        ms.push(Member { key: String::from_str("state"), value: Json::Str(self.state.clone()) });
        ms.push(
            Member {
                key: String::from_str("protocol_id"),
                value: Json::Str(self.protocol_id.clone()),
            },
        );
        ms.push(Member { key: String::from_str("caller"), value: self.caller.to_json() });
        ms.push(Member { key: String::from_str("connected"), value: self.connected.to_json() });
        ms.push(
            Member {
                key: String::from_str("accountcode"),
                value: Json::Str(self.accountcode.clone()),
            },
        );
        ms.push(Member { key: String::from_str("dialplan"), value: self.dialplan.to_json() });
        ms.push(
            Member {
                key: String::from_str("creationtime"),
                value: Json::Str(self.creationtime.clone()),
            },
        );
        ms.push(
            Member { key: String::from_str("language"), value: Json::Str(self.language.clone()) },
        );
        let r = Json::Obj(ms);
        proof {
            lemma_member_model(r);
            assert(jmodel(r)->Obj_0 =~= channel_to_json(self@)->Obj_0);
        }
        r
    }
}

/// A dialplan position that an `i32` priority can carry.
pub open spec fn dialplan_wf(p: DialplanModel) -> bool {
    i32::MIN <= p.priority <= i32::MAX
}

/// A channel snapshot whose numeric fields fit their carriers.
pub open spec fn channel_wf(c: ChannelModel) -> bool {
    dialplan_wf(c.dialplan)
}

/// Encoding a caller and decoding it yields the same caller.
pub proof fn lemma_caller_roundtrip(c: CallerModel)
    ensures
        caller_of_json(caller_to_json(c)) == Some(c),
{
    reveal_strlit("name");
    reveal_strlit("number");
    assert("name"@.len() == 4);
    assert("number"@.len() == 6);
    let ms = caller_to_json(c)->Obj_0;
    crate::json::lemma_obj_lookup_at(ms, 0);
    crate::json::lemma_obj_lookup_at(ms, 1);
}

/// Encoding a dialplan position and decoding it yields the same position.
pub proof fn lemma_dialplan_roundtrip(p: DialplanModel)
    requires
        dialplan_wf(p),
    ensures
        dialplan_of_json(dialplan_to_json(p)) == Some(p),
{
    reveal_strlit("context");
    reveal_strlit("exten");
    reveal_strlit("priority");
    reveal_strlit("app_name");
    reveal_strlit("app_data");
    assert("context"@.len() == 7);
    assert("exten"@.len() == 5);
    assert("priority"@.len() == 8);
    assert("app_name"@.len() == 8);
    assert("app_data"@.len() == 8);
    assert("priority"@[0] == 'p' && "app_name"@[0] == 'a' && "app_data"@[0] == 'a');
    assert("app_name"@[4] == 'n' && "app_data"@[4] == 'd');
    let ms = dialplan_to_json(p)->Obj_0;
    crate::json::lemma_obj_lookup_at(ms, 0);
    crate::json::lemma_obj_lookup_at(ms, 1);
    crate::json::lemma_obj_lookup_at(ms, 2);
    crate::json::lemma_obj_lookup_at(ms, 3);
    crate::json::lemma_obj_lookup_at(ms, 4);
}

/// Encoding a channel snapshot and decoding it yields the same snapshot.
#[verifier::rlimit(100)]
#[verifier::spinoff_prover]
pub proof fn lemma_channel_roundtrip(c: ChannelModel)
    requires
        channel_wf(c),
    ensures
        channel_of_json(channel_to_json(c)) == Some(c),
{
    reveal_strlit("id");
    reveal_strlit("name");
    reveal_strlit("state");
    reveal_strlit("protocol_id");
    reveal_strlit("caller");
    reveal_strlit("connected");
    reveal_strlit("accountcode");
    reveal_strlit("dialplan");
    reveal_strlit("creationtime");
    reveal_strlit("language");
    assert("id"@.len() == 2);
    assert("name"@.len() == 4);
    assert("state"@.len() == 5);
    assert("protocol_id"@.len() == 11);
    assert("caller"@.len() == 6);
    assert("connected"@.len() == 9);
    assert("accountcode"@.len() == 11);
    assert("dialplan"@.len() == 8);
    assert("creationtime"@.len() == 12);
    assert("language"@.len() == 8);
    assert("protocol_id"@[0] == 'p' && "accountcode"@[0] == 'a');
    assert("dialplan"@[0] == 'd' && "language"@[0] == 'l');
    let ms = channel_to_json(c)->Obj_0;
    crate::json::lemma_obj_lookup_at(ms, 0);
    crate::json::lemma_obj_lookup_at(ms, 1);
    crate::json::lemma_obj_lookup_at(ms, 2);
    crate::json::lemma_obj_lookup_at(ms, 3);
    crate::json::lemma_obj_lookup_at(ms, 4);
    crate::json::lemma_obj_lookup_at(ms, 5);
    crate::json::lemma_obj_lookup_at(ms, 6);
    crate::json::lemma_obj_lookup_at(ms, 7);
    crate::json::lemma_obj_lookup_at(ms, 8);
    crate::json::lemma_obj_lookup_at(ms, 9);
    lemma_caller_roundtrip(c.caller);
    lemma_caller_roundtrip(c.connected);
    lemma_dialplan_roundtrip(c.dialplan);
}

/// A caller's encoding serializes and re-parses cleanly.
pub proof fn lemma_caller_ser_wf(c: CallerModel)
    ensures
        crate::json::ser_wf(caller_to_json(c)),
{
    let ms = caller_to_json(c)->Obj_0;
    assert(forall|k: int| 0 <= k < ms.len() ==> crate::json::ser_wf((#[trigger] ms[k]).1)) by {
        assert(ms[0].1 == JsonData::Str(c.name));
        assert(ms[1].1 == JsonData::Str(c.number));
    }
    crate::json::lemma_ser_wf_members_of(ms);
}

/// A dialplan position's encoding serializes and re-parses cleanly.
pub proof fn lemma_dialplan_ser_wf(p: DialplanModel)
    requires
        dialplan_wf(p),
    ensures
        crate::json::ser_wf(dialplan_to_json(p)),
{
    let ms = dialplan_to_json(p)->Obj_0;
    assert(forall|k: int| 0 <= k < ms.len() ==> crate::json::ser_wf((#[trigger] ms[k]).1)) by {
        assert(ms[0].1 == JsonData::Str(p.context));
        assert(ms[1].1 == JsonData::Str(p.exten));
        assert(ms[2].1 == JsonData::Int(p.priority));
        assert(ms[3].1 == JsonData::Str(p.app_name));
        assert(ms[4].1 == JsonData::Str(p.app_data));
    }
    crate::json::lemma_ser_wf_members_of(ms);
}

/// A channel snapshot's encoding serializes and re-parses cleanly.
pub proof fn lemma_channel_ser_wf(c: ChannelModel)
    requires
        channel_wf(c),
    ensures
        crate::json::ser_wf(channel_to_json(c)),
{
    let ms = channel_to_json(c)->Obj_0;
    lemma_caller_ser_wf(c.caller);
    lemma_caller_ser_wf(c.connected);
    lemma_dialplan_ser_wf(c.dialplan);
    assert(forall|k: int| 0 <= k < ms.len() ==> crate::json::ser_wf((#[trigger] ms[k]).1)) by {
        assert(ms[0].1 == JsonData::Str(c.id));
        assert(ms[1].1 == JsonData::Str(c.name));
        assert(ms[2].1 == JsonData::Str(c.state));
        assert(ms[3].1 == JsonData::Str(c.protocol_id));
        assert(ms[4].1 == caller_to_json(c.caller));
        assert(ms[5].1 == caller_to_json(c.connected));
        assert(ms[6].1 == JsonData::Str(c.accountcode));
        assert(ms[7].1 == dialplan_to_json(c.dialplan));
        assert(ms[8].1 == JsonData::Str(c.creationtime));
        assert(ms[9].1 == JsonData::Str(c.language));
    }
    crate::json::lemma_ser_wf_members_of(ms);
}

/// A value of one channel variable.
pub struct ChannelVariable {
    pub id: String,
}

/// An RTP statistics record, identified by its server-assigned identifier.
pub struct RtpStatistics {
    pub id: String,
}

/// Parameters for playing media on one channel, with a single media locator.
pub struct PlayMediaParams {
    pub media: String,
    pub lang: Option<String>,
    pub offset_ms: Option<u32>,
    pub skip_ms: Option<u32>,
    pub playback_id: Option<String>,
}

impl PlayMediaParams {
    /// The exact pair sequence of this bag, fields in declaration order.
    pub open spec fn spec_pairs(self) -> Seq<(Seq<char>, Seq<char>)> {
        seq![("media"@, self.media@)] + crate::params::opt_str_pair("lang"@, self.lang)
            + crate::params::opt_u32_pair("offset_ms"@, self.offset_ms)
            + crate::params::opt_u32_pair("skip_ms"@, self.skip_ms) + crate::params::opt_str_pair(
            "playback_id"@,
            self.playback_id,
        )
    }

    /// The query pairs of this bag.
    pub fn query_pairs(&self) -> (r: Vec<QueryPair>)
        ensures
            pairs_model(r@) == self.spec_pairs(),
    {
        let mut v: Vec<QueryPair> = Vec::new();
        crate::params::push_str(&mut v, "media", &self.media);
        crate::params::push_opt_str(&mut v, "lang", &self.lang);
        crate::params::push_opt_u32(&mut v, "offset_ms", &self.offset_ms);
        crate::params::push_opt_u32(&mut v, "skip_ms", &self.skip_ms);
        crate::params::push_opt_str(&mut v, "playback_id", &self.playback_id);
        assert(pairs_model(v@) =~= self.spec_pairs());
        v
    }
}

/// Parameters for playing a list of media on one channel under a chosen
/// playback identifier.
pub struct PlayMediaWithIdParams {
    pub media: Vec<String>,
    pub lang: Option<String>,
    pub offset_ms: Option<u32>,
    pub skip_ms: Option<u32>,
}

impl PlayMediaWithIdParams {
    /// The exact pair sequence: the media list is always joined into one
    /// comma-separated `media` value.
    pub open spec fn spec_pairs(self) -> Seq<(Seq<char>, Seq<char>)> {
        seq![("media"@, comma_joined(self.media.deep_view()))] + crate::params::opt_str_pair(
            "lang"@,
            self.lang,
        ) + crate::params::opt_u32_pair("offset_ms"@, self.offset_ms)
            + crate::params::opt_u32_pair("skip_ms"@, self.skip_ms)
    }

    /// The query pairs of this bag.
    pub fn query_pairs(&self) -> (r: Vec<QueryPair>)
        ensures
            pairs_model(r@) == self.spec_pairs(),
    {
        let mut v: Vec<QueryPair> = Vec::new();
        crate::params::push_joined_list(&mut v, "media", &self.media);
        crate::params::push_opt_str(&mut v, "lang", &self.lang);
        crate::params::push_opt_u32(&mut v, "offset_ms", &self.offset_ms);
        crate::params::push_opt_u32(&mut v, "skip_ms", &self.skip_ms);
        assert(pairs_model(v@) =~= self.spec_pairs());
        v
    }
}

} // verus!
