//! The event schema: a closed, tagged union of notification payloads.
//!
//! Every inbound text frame holds one JSON object whose `type` member
//! selects the variant; the envelope fields (`timestamp`, `asterisk_id`,
//! `application`) and the variant's own fields are read from the same,
//! flat object.  A `type` value outside the known set decodes to the
//! catch-all [`Event::Unknown`] — never to a failure — so that newer
//! servers cannot break decoding.  Text that is not valid JSON, or an
//! object whose known variant lacks a field, is a decode failure.

use vstd::prelude::*;
use vstd::string::StringExecFns;
use crate::channel::{
    channel_of_json, Channel, ChannelModel,
};
use crate::device::{device_state_of_json, DeviceState, DeviceStateModel};
use crate::error::AriError;
use crate::json::{
    all_strings, arr_field, int_field, jmodel, jmodel_members_vec, json_parsed,
    obj_lookup, str_field, Json, JsonData, Member,
};

verus! {

/// A session-entry notification: the channel has entered the application.
pub struct StasisStart {
    pub timestamp: String,
    pub args: Vec<String>,
    pub channel: Channel,
    pub asterisk_id: String,
    pub application: String,
}

/// The model of a session-entry notification.
pub ghost struct StasisStartModel {
    pub timestamp: Seq<char>,
    pub args: Seq<Seq<char>>,
    pub channel: ChannelModel,
    pub asterisk_id: Seq<char>,
    pub application: Seq<char>,
}

impl View for StasisStart {
    type V = StasisStartModel;

    open spec fn view(&self) -> StasisStartModel {
        StasisStartModel {
            timestamp: self.timestamp@,
            args: self.args.deep_view(),
            channel: self.channel@,
            asterisk_id: self.asterisk_id@,
            application: self.application@,
        }
    }
}

/// A session-exit notification: the channel has left the application.
pub struct StasisEnd {
    pub timestamp: String,
    pub channel: Channel,
    pub asterisk_id: String,
    pub application: String,
}

/// The model of a session-exit notification.
pub ghost struct StasisEndModel {
    pub timestamp: Seq<char>,
    pub channel: ChannelModel,
    pub asterisk_id: Seq<char>,
    pub application: Seq<char>,
}

impl View for StasisEnd {
    type V = StasisEndModel;

    open spec fn view(&self) -> StasisEndModel {
        StasisEndModel {
            timestamp: self.timestamp@,
            channel: self.channel@,
            asterisk_id: self.asterisk_id@,
            application: self.application@,
        }
    }
}

/// A resource-created notification; the snapshot may be absent.
pub struct ChannelCreated {
    pub timestamp: String,
    pub channel: Option<Channel>,
    pub asterisk_id: String,
    pub application: String,
}

/// The model of a resource-created notification.
pub ghost struct ChannelCreatedModel {
    pub timestamp: Seq<char>,
    pub channel: Option<ChannelModel>,
    pub asterisk_id: Seq<char>,
    pub application: Seq<char>,
}

impl View for ChannelCreated {
    type V = ChannelCreatedModel;

    open spec fn view(&self) -> ChannelCreatedModel {
        ChannelCreatedModel {
            timestamp: self.timestamp@,
            channel: match self.channel {
                Some(c) => Some(c@),
                None => None,
            },
            asterisk_id: self.asterisk_id@,
            application: self.application@,
        }
    }
}

/// A resource-destroyed notification, with the hangup cause.
pub struct ChannelDestroyed {
    pub timestamp: String,
    pub cause: i32,
    pub cause_txt: String,
    pub channel: Channel,
    pub asterisk_id: String,
    pub application: String,
}

/// The model of a resource-destroyed notification.
pub ghost struct ChannelDestroyedModel {
    pub timestamp: Seq<char>,
    pub cause: int,
    pub cause_txt: Seq<char>,
    pub channel: ChannelModel,
    pub asterisk_id: Seq<char>,
    pub application: Seq<char>,
}

impl View for ChannelDestroyed {
    type V = ChannelDestroyedModel;

    open spec fn view(&self) -> ChannelDestroyedModel {
        ChannelDestroyedModel {
            timestamp: self.timestamp@,
            cause: self.cause as int,
            cause_txt: self.cause_txt@,
            channel: self.channel@,
            asterisk_id: self.asterisk_id@,
            application: self.application@,
        }
    }
}

/// A variable-set notification; the snapshot may be absent.
pub struct ChannelVarset {
    pub timestamp: String,
    pub variable: String,
    pub value: String,
    pub channel: Option<Channel>,
    pub asterisk_id: String,
    pub application: String,
}

/// The model of a variable-set notification.
pub ghost struct ChannelVarsetModel {
    pub timestamp: Seq<char>,
    pub variable: Seq<char>,
    pub value: Seq<char>,
    pub channel: Option<ChannelModel>,
    pub asterisk_id: Seq<char>,
    pub application: Seq<char>,
}

impl View for ChannelVarset {
    type V = ChannelVarsetModel;

    open spec fn view(&self) -> ChannelVarsetModel {
        ChannelVarsetModel {
            timestamp: self.timestamp@,
            variable: self.variable@,
            value: self.value@,
            channel: match self.channel {
                Some(c) => Some(c@),
                None => None,
            },
            asterisk_id: self.asterisk_id@,
            application: self.application@,
        }
    }
}

/// A hangup-requested notification.
pub struct ChannelHangupRequest {
    pub timestamp: String,
    pub soft: Option<bool>,
    pub cause: i32,
    pub channel: Channel,
    pub asterisk_id: String,
    pub application: String,
}

/// The model of a hangup-requested notification.
pub ghost struct ChannelHangupRequestModel {
    pub timestamp: Seq<char>,
    pub soft: Option<bool>,
    pub cause: int,
    pub channel: ChannelModel,
    pub asterisk_id: Seq<char>,
    pub application: Seq<char>,
}

impl View for ChannelHangupRequest {
    type V = ChannelHangupRequestModel;

    open spec fn view(&self) -> ChannelHangupRequestModel {
        ChannelHangupRequestModel {
            timestamp: self.timestamp@,
            soft: self.soft,
            cause: self.cause as int,
            channel: self.channel@,
            asterisk_id: self.asterisk_id@,
            application: self.application@,
        }
    }
}

/// A dialplan-changed notification.
pub struct ChannelDialplan {
    pub timestamp: String,
    pub dialplan_app: String,
    pub dialplan_app_data: String,
    pub channel: Channel,
    pub asterisk_id: String,
    pub application: String,
}

/// The model of a dialplan-changed notification.
pub ghost struct ChannelDialplanModel {
    pub timestamp: Seq<char>,
    pub dialplan_app: Seq<char>,
    pub dialplan_app_data: Seq<char>,
    pub channel: ChannelModel,
    pub asterisk_id: Seq<char>,
    pub application: Seq<char>,
}

impl View for ChannelDialplan {
    type V = ChannelDialplanModel;

    open spec fn view(&self) -> ChannelDialplanModel {
        ChannelDialplanModel {
            timestamp: self.timestamp@,
            dialplan_app: self.dialplan_app@,
            dialplan_app_data: self.dialplan_app_data@,
            channel: self.channel@,
            asterisk_id: self.asterisk_id@,
            application: self.application@,
        }
    }
}

/// A state-changed notification.
pub struct ChannelStateChange {
    pub timestamp: String,
    pub channel: Channel,
    pub asterisk_id: String,
    pub application: String,
}

/// The model of a state-changed notification.
pub ghost struct ChannelStateChangeModel {
    pub timestamp: Seq<char>,
    pub channel: ChannelModel,
    pub asterisk_id: Seq<char>,
    pub application: Seq<char>,
}

impl View for ChannelStateChange {
    type V = ChannelStateChangeModel;

    open spec fn view(&self) -> ChannelStateChangeModel {
        ChannelStateChangeModel {
            timestamp: self.timestamp@,
            channel: self.channel@,
            asterisk_id: self.asterisk_id@,
            application: self.application@,
        }
    }
}

/// A DTMF-digit notification: the digit and its duration in milliseconds.
pub struct ChannelDtmfReceived {
    pub timestamp: String,
    pub digit: String,
    pub duration_ms: i32,
    pub channel: Channel,
    pub asterisk_id: String,
    pub application: String,
}

/// The model of a DTMF-digit notification.
pub ghost struct ChannelDtmfReceivedModel {
    pub timestamp: Seq<char>,
    pub digit: Seq<char>,
    pub duration_ms: int,
    pub channel: ChannelModel,
    pub asterisk_id: Seq<char>,
    pub application: Seq<char>,
}

impl View for ChannelDtmfReceived {
    type V = ChannelDtmfReceivedModel;

    open spec fn view(&self) -> ChannelDtmfReceivedModel {
        ChannelDtmfReceivedModel {
            timestamp: self.timestamp@,
            digit: self.digit@,
            duration_ms: self.duration_ms as int,
            channel: self.channel@,
            asterisk_id: self.asterisk_id@,
            application: self.application@,
        }
    }
}

/// A device-state-changed notification.
pub struct DeviceStateChanged {
    pub timestamp: String,
    pub device_state: DeviceState,
    pub asterisk_id: String,
    pub application: String,
}

/// The model of a device-state-changed notification.
pub ghost struct DeviceStateChangedModel {
    pub timestamp: Seq<char>,
    pub device_state: DeviceStateModel,
    pub asterisk_id: Seq<char>,
    pub application: Seq<char>,
}

impl View for DeviceStateChanged {
    type V = DeviceStateChangedModel;

    open spec fn view(&self) -> DeviceStateChangedModel {
        DeviceStateChangedModel {
            timestamp: self.timestamp@,
            device_state: self.device_state@,
            asterisk_id: self.asterisk_id@,
            application: self.application@,
        }
    }
}

/// One decoded notification; `Unknown` is the catch-all for discriminator
/// values outside the known set.
pub enum Event {
    StasisStart(StasisStart),
    StasisEnd(StasisEnd),
    ChannelCreated(ChannelCreated),
    ChannelDestroyed(ChannelDestroyed),
    ChannelVarset(ChannelVarset),
    ChannelHangupRequest(ChannelHangupRequest),
    ChannelDialplan(ChannelDialplan),
    ChannelStateChange(ChannelStateChange),
    ChannelDtmfReceived(ChannelDtmfReceived),
    DeviceStateChanged(DeviceStateChanged),
    Unknown,
}

/// The model of a decoded notification.
pub ghost enum EventModel {
    StasisStart(StasisStartModel),
    StasisEnd(StasisEndModel),
    ChannelCreated(ChannelCreatedModel),
    ChannelDestroyed(ChannelDestroyedModel),
    ChannelVarset(ChannelVarsetModel),
    ChannelHangupRequest(ChannelHangupRequestModel),
    ChannelDialplan(ChannelDialplanModel),
    ChannelStateChange(ChannelStateChangeModel),
    ChannelDtmfReceived(ChannelDtmfReceivedModel),
    DeviceStateChanged(DeviceStateChangedModel),
    Unknown,
}

impl View for Event {
    type V = EventModel;

    open spec fn view(&self) -> EventModel {
        match self {
            Event::StasisStart(x) => EventModel::StasisStart(x@),
            Event::StasisEnd(x) => EventModel::StasisEnd(x@),
            Event::ChannelCreated(x) => EventModel::ChannelCreated(x@),
            Event::ChannelDestroyed(x) => EventModel::ChannelDestroyed(x@),
            Event::ChannelVarset(x) => EventModel::ChannelVarset(x@),
            Event::ChannelHangupRequest(x) => EventModel::ChannelHangupRequest(x@),
            Event::ChannelDialplan(x) => EventModel::ChannelDialplan(x@),
            Event::ChannelStateChange(x) => EventModel::ChannelStateChange(x@),
            Event::ChannelDtmfReceived(x) => EventModel::ChannelDtmfReceived(x@),
            Event::DeviceStateChanged(x) => EventModel::DeviceStateChanged(x@),
            Event::Unknown => EventModel::Unknown,
        }
    }
}

/// The discriminator values this schema knows.
pub open spec fn known_type(t: Seq<char>) -> bool {
    ||| t == "StasisStart"@
    ||| t == "StasisEnd"@
    ||| t == "ChannelCreated"@
    ||| t == "ChannelDestroyed"@
    ||| t == "ChannelVarset"@
    ||| t == "ChannelHangupRequest"@
    ||| t == "ChannelDialplan"@
    ||| t == "ChannelStateChange"@
    ||| t == "ChannelDtmfReceived"@
    ||| t == "DeviceStateChanged"@
}

/// The required channel member, decoded.
pub open spec fn channel_field(ms: Seq<(Seq<char>, JsonData)>) -> Option<ChannelModel> {
    match obj_lookup(ms, "channel"@) {
        Some(d) => channel_of_json(d),
        None => None,
    }
}

/// The optional channel member: absent or null stands for no snapshot; a
/// present snapshot must decode.
pub open spec fn opt_channel_field(ms: Seq<(Seq<char>, JsonData)>) -> Option<
    Option<ChannelModel>,
> {
    match obj_lookup(ms, "channel"@) {
        None => Some(None),
        Some(JsonData::Null) => Some(None),
        Some(d) => match channel_of_json(d) {
            Some(c) => Some(Some(c)),
            None => None,
        },
    }
}

/// The optional `soft` flag: absent or null stands for no flag.
pub open spec fn opt_soft_field(ms: Seq<(Seq<char>, JsonData)>) -> Option<Option<bool>> {
    match obj_lookup(ms, "soft"@) {
        None => Some(None),
        Some(JsonData::Null) => Some(None),
        Some(JsonData::Bool(b)) => Some(Some(b)),
        Some(_) => None,
    }
}

/// The `args` member: an array of strings.
pub open spec fn args_field(ms: Seq<(Seq<char>, JsonData)>) -> Option<Seq<Seq<char>>> {
    match arr_field(ms, "args"@) {
        Some(items) => all_strings(items),
        None => None,
    }
}

/// The session-entry payload of an envelope's members.
pub open spec fn stasis_start_of(ms: Seq<(Seq<char>, JsonData)>) -> Option<StasisStartModel> {
    match (
        str_field(ms, "timestamp"@),
        args_field(ms),
        channel_field(ms),
        str_field(ms, "asterisk_id"@),
        str_field(ms, "application"@),
    ) {
        (Some(timestamp), Some(args), Some(channel), Some(asterisk_id), Some(application)) => Some(
            StasisStartModel { timestamp, args, channel, asterisk_id, application },
        ),
        _ => None,
    }
}

/// The session-exit payload of an envelope's members.
pub open spec fn stasis_end_of(ms: Seq<(Seq<char>, JsonData)>) -> Option<StasisEndModel> {
    match (
        str_field(ms, "timestamp"@),
        channel_field(ms),
        str_field(ms, "asterisk_id"@),
        str_field(ms, "application"@),
    ) {
        (Some(timestamp), Some(channel), Some(asterisk_id), Some(application)) => Some(
            StasisEndModel { timestamp, channel, asterisk_id, application },
        ),
        _ => None,
    }
}

/// The resource-created payload of an envelope's members.
pub open spec fn channel_created_of(ms: Seq<(Seq<char>, JsonData)>) -> Option<
    ChannelCreatedModel,
> {
    match (
        str_field(ms, "timestamp"@),
        opt_channel_field(ms),
        str_field(ms, "asterisk_id"@),
        str_field(ms, "application"@),
    ) {
        (Some(timestamp), Some(channel), Some(asterisk_id), Some(application)) => Some(
            ChannelCreatedModel { timestamp, channel, asterisk_id, application },
        ),
        _ => None,
    }
}

/// The resource-destroyed payload of an envelope's members.
pub open spec fn channel_destroyed_of(ms: Seq<(Seq<char>, JsonData)>) -> Option<
    ChannelDestroyedModel,
> {
    match (
        str_field(ms, "timestamp"@),
        int_field(ms, "cause"@),
        str_field(ms, "cause_txt"@),
        channel_field(ms),
        str_field(ms, "asterisk_id"@),
        str_field(ms, "application"@),
    ) {
        (
            Some(timestamp),
            Some(cause),
            Some(cause_txt),
            Some(channel),
            Some(asterisk_id),
            Some(application),
        ) => {
            if i32::MIN <= cause <= i32::MAX {
                Some(
                    ChannelDestroyedModel {
                        timestamp,
                        cause,
                        cause_txt,
                        channel,
                        asterisk_id,
                        application,
                    },
                )
            } else {
                None
            }
        },
        _ => None,
    }
}

/// The variable-set payload of an envelope's members.
pub open spec fn channel_varset_of(ms: Seq<(Seq<char>, JsonData)>) -> Option<ChannelVarsetModel> {
    match (
        str_field(ms, "timestamp"@),
        str_field(ms, "variable"@),
        str_field(ms, "value"@),
        opt_channel_field(ms),
        str_field(ms, "asterisk_id"@),
        str_field(ms, "application"@),
    ) {
        (
            Some(timestamp),
            Some(variable),
            Some(value),
            Some(channel),
            Some(asterisk_id),
            Some(application),
        ) => Some(
            ChannelVarsetModel { timestamp, variable, value, channel, asterisk_id, application },
        ),
        _ => None,
    }
}

/// The hangup-requested payload of an envelope's members.
pub open spec fn channel_hangup_request_of(ms: Seq<(Seq<char>, JsonData)>) -> Option<
    ChannelHangupRequestModel,
> {
    match (
        str_field(ms, "timestamp"@),
        opt_soft_field(ms),
        int_field(ms, "cause"@),
        channel_field(ms),
        str_field(ms, "asterisk_id"@),
        str_field(ms, "application"@),
    ) {
        (
            Some(timestamp),
            Some(soft),
            Some(cause),
            Some(channel),
            Some(asterisk_id),
            Some(application),
        ) => {
            if i32::MIN <= cause <= i32::MAX {
                Some(
                    ChannelHangupRequestModel {
                        timestamp,
                        soft,
                        cause,
                        channel,
                        asterisk_id,
                        application,
                    },
                )
            } else {
                None
            }
        },
        _ => None,
    }
}

/// The dialplan-changed payload of an envelope's members.
pub open spec fn channel_dialplan_of(ms: Seq<(Seq<char>, JsonData)>) -> Option<
    ChannelDialplanModel,
> {
    match (
        str_field(ms, "timestamp"@),
        str_field(ms, "dialplan_app"@),
        str_field(ms, "dialplan_app_data"@),
        channel_field(ms),
        str_field(ms, "asterisk_id"@),
        str_field(ms, "application"@),
    ) {
        (
            Some(timestamp),
            Some(dialplan_app),
            Some(dialplan_app_data),
            Some(channel),
            Some(asterisk_id),
            Some(application),
        ) => Some(
            ChannelDialplanModel {
                timestamp,
                dialplan_app,
                dialplan_app_data,
                channel,
                asterisk_id,
                application,
            },
        ),
        _ => None,
    }
}

/// The state-changed payload of an envelope's members.
pub open spec fn channel_state_change_of(ms: Seq<(Seq<char>, JsonData)>) -> Option<
    ChannelStateChangeModel,
> {
    match (
        str_field(ms, "timestamp"@),
        channel_field(ms),
        str_field(ms, "asterisk_id"@),
        str_field(ms, "application"@),
    ) {
        (Some(timestamp), Some(channel), Some(asterisk_id), Some(application)) => Some(
            ChannelStateChangeModel { timestamp, channel, asterisk_id, application },
        ),
        _ => None,
    }
}

/// The DTMF payload of an envelope's members.
pub open spec fn channel_dtmf_received_of(ms: Seq<(Seq<char>, JsonData)>) -> Option<
    ChannelDtmfReceivedModel,
> {
    match (
        str_field(ms, "timestamp"@),
        str_field(ms, "digit"@),
        int_field(ms, "duration_ms"@),
        channel_field(ms),
        str_field(ms, "asterisk_id"@),
        str_field(ms, "application"@),
    ) {
        (
            Some(timestamp),
            Some(digit),
            Some(duration_ms),
            Some(channel),
            Some(asterisk_id),
            Some(application),
        ) => {
            if i32::MIN <= duration_ms <= i32::MAX {
                Some(
                    ChannelDtmfReceivedModel {
                        timestamp,
                        digit,
                        duration_ms,
                        channel,
                        asterisk_id,
                        application,
                    },
                )
            } else {
                None
            }
        },
        _ => None,
    }
}

/// The device-state payload of an envelope's members.
pub open spec fn device_state_changed_of(ms: Seq<(Seq<char>, JsonData)>) -> Option<
    DeviceStateChangedModel,
> {
    match (
        str_field(ms, "timestamp"@),
        obj_lookup(ms, "device_state"@),
        str_field(ms, "asterisk_id"@),
        str_field(ms, "application"@),
    ) {
        (Some(timestamp), Some(ds_json), Some(asterisk_id), Some(application)) => {
            match device_state_of_json(ds_json) {
                Some(device_state) => Some(
                    DeviceStateChangedModel { timestamp, device_state, asterisk_id, application },
                ),
                None => None,
            }
        },
        _ => None,
    }
}

/// The event a JSON value decodes to: the payload its `type` selects, or
/// the catch-all for an unknown `type`; no decode at all when the value is
/// not an object with a string `type` member, or when a known payload is
/// malformed.
pub open spec fn event_of_json(d: JsonData) -> Option<EventModel> {
    match d {
        JsonData::Obj(ms) => match str_field(ms, "type"@) {
            Some(t) => {
                if t == "StasisStart"@ {
                    match stasis_start_of(ms) {
                        Some(x) => Some(EventModel::StasisStart(x)),
                        None => None,
                    }
                } else if t == "StasisEnd"@ {
                    match stasis_end_of(ms) {
                        Some(x) => Some(EventModel::StasisEnd(x)),
                        None => None,
                    }
                } else if t == "ChannelCreated"@ {
                    match channel_created_of(ms) {
                        Some(x) => Some(EventModel::ChannelCreated(x)),
                        None => None,
                    }
                } else if t == "ChannelDestroyed"@ {
                    match channel_destroyed_of(ms) {
                        Some(x) => Some(EventModel::ChannelDestroyed(x)),
                        None => None,
                    }
                } else if t == "ChannelVarset"@ {
                    match channel_varset_of(ms) {
                        Some(x) => Some(EventModel::ChannelVarset(x)),
                        None => None,
                    }
                } else if t == "ChannelHangupRequest"@ {
                    match channel_hangup_request_of(ms) {
                        Some(x) => Some(EventModel::ChannelHangupRequest(x)),
                        None => None,
                    }
                } else if t == "ChannelDialplan"@ {
                    match channel_dialplan_of(ms) {
                        Some(x) => Some(EventModel::ChannelDialplan(x)),
                        None => None,
                    }
                } else if t == "ChannelStateChange"@ {
                    match channel_state_change_of(ms) {
                        Some(x) => Some(EventModel::ChannelStateChange(x)),
                        None => None,
                    }
                } else if t == "ChannelDtmfReceived"@ {
                    match channel_dtmf_received_of(ms) {
                        Some(x) => Some(EventModel::ChannelDtmfReceived(x)),
                        None => None,
                    }
                } else if t == "DeviceStateChanged"@ {
                    match device_state_changed_of(ms) {
                        Some(x) => Some(EventModel::DeviceStateChanged(x)),
                        None => None,
                    }
                } else {
                    Some(EventModel::Unknown)
                }
            },
            None => None,
        },
        _ => None,
    }
}

/// The event a whole text decodes to, if it is valid JSON that decodes.
pub open spec fn event_decoded(s: Seq<char>) -> Option<EventModel> {
    match json_parsed(s) {
        Some(d) => event_of_json(d),
        None => None,
    }
}

/// Decode totality over unknown discriminators: a syntactically valid JSON
/// object whose string `type` member is outside the known set always
/// decodes, to the catch-all variant — never to a failure.
pub proof fn lemma_decode_total_on_unknown(d: JsonData)
    requires
        d matches JsonData::Obj(ms),
        str_field(d->Obj_0, "type"@) matches Some(t) && !known_type(t),
    ensures
        event_of_json(d) == Some(EventModel::Unknown),
{
}

/// The same totality at the wire level: any text that parses to an object
/// whose string `type` member is outside the known set decodes, to the
/// catch-all variant.
pub proof fn lemma_decode_total_on_unknown_text(s: Seq<char>)
    requires
        json_parsed(s) matches Some(d) && d matches JsonData::Obj(ms) && (str_field(
            d->Obj_0,
            "type"@,
        ) matches Some(t) && !known_type(t)),
    ensures
        event_decoded(s) == Some(EventModel::Unknown),
{
    lemma_decode_total_on_unknown(json_parsed(s)->0);
}

fn get_channel(ms: &Vec<Member>) -> (r: Option<Channel>)
    ensures
        match r {
            Some(c) => channel_field(jmodel_members_vec(*ms)) == Some(c@),
            None => channel_field(jmodel_members_vec(*ms)) is None,
        },
{
    match crate::json::obj_get(ms, "channel") {
        Some(j) => Channel::from_json(j),
        None => None,
    }
}

fn get_opt_channel(ms: &Vec<Member>) -> (r: Option<Option<Channel>>)
    ensures
        match r {
            Some(oc) => opt_channel_field(jmodel_members_vec(*ms)) == Some(
                match oc {
                    Some(c) => Some(c@),
                    None => None,
                },
            ),
            None => opt_channel_field(jmodel_members_vec(*ms)) is None,
        },
{
    match crate::json::obj_get(ms, "channel") {
        Some(j) => match j {
            Json::Null => Some(None),
            _ => match Channel::from_json(j) {
                Some(c) => Some(Some(c)),
                None => None,
            },
        },
        None => Some(None),
    }
}

fn get_opt_soft(ms: &Vec<Member>) -> (r: Option<Option<bool>>)
    ensures
        match r {
            Some(ob) => opt_soft_field(jmodel_members_vec(*ms)) == Some(ob),
            None => opt_soft_field(jmodel_members_vec(*ms)) is None,
        },
{
    match crate::json::obj_get(ms, "soft") {
        Some(j) => match j {
            Json::Null => Some(None),
            Json::Bool(b) => Some(Some(*b)),
            _ => None,
        },
        None => Some(None),
    }
}

fn get_args(ms: &Vec<Member>) -> (r: Option<Vec<String>>)
    ensures
        match r {
            Some(items) => args_field(jmodel_members_vec(*ms)) == Some(items.deep_view()),
            None => args_field(jmodel_members_vec(*ms)) is None,
        },
{
    crate::json::get_str_array(ms, "args")
}

fn get_envelope(ms: &Vec<Member>) -> (r: Option<(String, String, String)>)
    ensures
        match r {
            Some(e) => str_field(jmodel_members_vec(*ms), "timestamp"@) == Some(e.0@) && str_field(
                jmodel_members_vec(*ms),
                "asterisk_id"@,
            ) == Some(e.1@) && str_field(jmodel_members_vec(*ms), "application"@) == Some(e.2@),
            None => str_field(jmodel_members_vec(*ms), "timestamp"@) is None || str_field(
                jmodel_members_vec(*ms),
                "asterisk_id"@,
            ) is None || str_field(jmodel_members_vec(*ms), "application"@) is None,
        },
{
    let timestamp = crate::json::get_str(ms, "timestamp");
    let asterisk_id = crate::json::get_str(ms, "asterisk_id");
    let application = crate::json::get_str(ms, "application");
    match (timestamp, asterisk_id, application) {
        (Some(t), Some(a), Some(p)) => Some((t, a, p)),
        _ => None,
    }
}

pub(crate) fn str_is(s: &String, lit: &str) -> (r: bool)
    ensures
        r == (s@ == lit@),
{
    let l = lit.to_owned();
    s.eq(&l)
}

impl Event {
    /// Decodes an event from a JSON value.
    pub fn from_json(j: &Json) -> (r: Option<Event>)
        ensures
            match r {
                Some(e) => event_of_json(jmodel(*j)) == Some(e@),
                None => event_of_json(jmodel(*j)) is None,
            },
    {
        let ms = match j {
            Json::Obj(ms) => ms,
            _ => {
                return None;
            },
        };
        let t = match crate::json::get_str(ms, "type") {
            Some(t) => t,
            None => {
                return None;
            },
        };
        if str_is(&t, "StasisStart") {
            match (get_envelope(ms), get_args(ms), get_channel(ms)) {
                (Some(env), Some(args), Some(channel)) => Some(
                    Event::StasisStart(
                        StasisStart {
                            timestamp: env.0,
                            args,
                            channel,
                            asterisk_id: env.1,
                            application: env.2,
                        },
                    ),
                ),
                _ => None,
            }
        } else if str_is(&t, "StasisEnd") {
            match (get_envelope(ms), get_channel(ms)) {
                (Some(env), Some(channel)) => Some(
                    Event::StasisEnd(
                        StasisEnd {
                            timestamp: env.0,
                            channel,
                            asterisk_id: env.1,
                            application: env.2,
                        },
                    ),
                ),
                _ => None,
            }
        } else if str_is(&t, "ChannelCreated") {
            match (get_envelope(ms), get_opt_channel(ms)) {
                (Some(env), Some(channel)) => Some(
                    Event::ChannelCreated(
                        ChannelCreated {
                            timestamp: env.0,
                            channel,
                            asterisk_id: env.1,
                            application: env.2,
                        },
                    ),
                ),
                _ => None,
            }
        } else if str_is(&t, "ChannelDestroyed") {
            match (
                get_envelope(ms),
                crate::json::get_i64(ms, "cause"),
                crate::json::get_str(ms, "cause_txt"),
                get_channel(ms),
            ) {
                (Some(env), Some(cause), Some(cause_txt), Some(channel)) => {
                    if i32::MIN as i64 <= cause && cause <= i32::MAX as i64 {
                        Some(
                            Event::ChannelDestroyed(
                                ChannelDestroyed {
                                    timestamp: env.0,
                                    cause: cause as i32,
                                    cause_txt,
                                    channel,
                                    asterisk_id: env.1,
                                    application: env.2,
                                },
                            ),
                        )
                    } else {
                        None
                    }
                },
                _ => None,
            }
        } else if str_is(&t, "ChannelVarset") {
            match (
                get_envelope(ms),
                crate::json::get_str(ms, "variable"),
                crate::json::get_str(ms, "value"),
                get_opt_channel(ms),
            ) {
                (Some(env), Some(variable), Some(value), Some(channel)) => Some(
                    Event::ChannelVarset(
                        ChannelVarset {
                            timestamp: env.0,
                            variable,
                            value,
                            channel,
                            asterisk_id: env.1,
                            application: env.2,
                        },
                    ),
                ),
                _ => None,
            }
        } else if str_is(&t, "ChannelHangupRequest") {
            match (
                get_envelope(ms),
                get_opt_soft(ms),
                crate::json::get_i64(ms, "cause"),
                get_channel(ms),
            ) {
                (Some(env), Some(soft), Some(cause), Some(channel)) => {
                    if i32::MIN as i64 <= cause && cause <= i32::MAX as i64 {
                        Some(
                            Event::ChannelHangupRequest(
                                ChannelHangupRequest {
                                    timestamp: env.0,
                                    soft,
                                    cause: cause as i32,
                                    channel,
                                    asterisk_id: env.1,
                                    application: env.2,
                                },
                            ),
                        )
                    } else {
                        None
                    }
                },
                _ => None,
            }
        } else if str_is(&t, "ChannelDialplan") {
            match (
                get_envelope(ms),
                crate::json::get_str(ms, "dialplan_app"),
                crate::json::get_str(ms, "dialplan_app_data"),
                get_channel(ms),
            ) {
                (Some(env), Some(dialplan_app), Some(dialplan_app_data), Some(channel)) => Some(
                    Event::ChannelDialplan(
                        ChannelDialplan {
                            timestamp: env.0,
                            dialplan_app,
                            dialplan_app_data,
                            channel,
                            asterisk_id: env.1,
                            application: env.2,
                        },
                    ),
                ),
                _ => None,
            }
        } else if str_is(&t, "ChannelStateChange") {
            match (get_envelope(ms), get_channel(ms)) {
                (Some(env), Some(channel)) => Some(
                    Event::ChannelStateChange(
                        ChannelStateChange {
                            timestamp: env.0,
                            channel,
                            asterisk_id: env.1,
                            application: env.2,
                        },
                    ),
                ),
                _ => None,
            }
        } else if str_is(&t, "ChannelDtmfReceived") {
            match (
                get_envelope(ms),
                crate::json::get_str(ms, "digit"),
                crate::json::get_i64(ms, "duration_ms"),
                get_channel(ms),
            ) {
                (Some(env), Some(digit), Some(duration_ms), Some(channel)) => {
                    if i32::MIN as i64 <= duration_ms && duration_ms <= i32::MAX as i64 {
                        Some(
                            Event::ChannelDtmfReceived(
                                ChannelDtmfReceived {
                                    timestamp: env.0,
                                    digit,
                                    duration_ms: duration_ms as i32,
                                    channel,
                                    asterisk_id: env.1,
                                    application: env.2,
                                },
                            ),
                        )
                    } else {
                        None
                    }
                },
                _ => None,
            }
        } else if str_is(&t, "DeviceStateChanged") {
            let ds = match crate::json::obj_get(ms, "device_state") {
                Some(dj) => DeviceState::from_json(dj),
                None => None,
            };
            match (get_envelope(ms), ds) {
                (Some(env), Some(device_state)) => Some(
                    Event::DeviceStateChanged(
                        DeviceStateChanged {
                            timestamp: env.0,
                            device_state,
                            asterisk_id: env.1,
                            application: env.2,
                        },
                    ),
                ),
                _ => None,
            }
        } else {
            Some(Event::Unknown)
        }
    }

    /// Decodes an event from one inbound text frame.
    ///
    /// Fails exactly when the text is not valid JSON, is not an object with
    /// a string `type` member, or names a known variant whose payload is
    /// malformed; an unknown `type` decodes to the catch-all variant.
    pub fn decode(s: &str) -> (r: Result<Event, AriError>)
        ensures
            match r {
                Ok(e) => event_decoded(s@) == Some(e@),
                Err(err) => event_decoded(s@) is None && err is Decode,
            },
    {
        match crate::json::parse_json(s) {
            Some(j) => match Event::from_json(&j) {
                Some(e) => Ok(e),
                None => Err(AriError::Decode),
            },
            None => Err(AriError::Decode),
        }
    }
}

/// String contents as JSON string values, in order.
pub open spec fn strs_to_json(ss: Seq<Seq<char>>) -> Seq<JsonData> {
    ss.map_values(|s: Seq<char>| JsonData::Str(s))
}

/// The encoding of an event: the discriminator first, then the envelope
/// and payload fields; an absent optional field produces no member; the
/// catch-all encodes as a bare object whose `type` is outside the known
/// set.
pub open spec fn event_to_json(em: EventModel) -> JsonData {
    match em {
        EventModel::StasisStart(x) => JsonData::Obj(
            seq![
                ("type"@, JsonData::Str("StasisStart"@)),
                ("timestamp"@, JsonData::Str(x.timestamp)),
                ("args"@, JsonData::Arr(strs_to_json(x.args))),
                ("channel"@, crate::channel::channel_to_json(x.channel)),
                ("asterisk_id"@, JsonData::Str(x.asterisk_id)),
                ("application"@, JsonData::Str(x.application)),
            ],
        ),
        EventModel::StasisEnd(x) => JsonData::Obj(
            seq![
                ("type"@, JsonData::Str("StasisEnd"@)),
                ("timestamp"@, JsonData::Str(x.timestamp)),
                ("channel"@, crate::channel::channel_to_json(x.channel)),
                ("asterisk_id"@, JsonData::Str(x.asterisk_id)),
                ("application"@, JsonData::Str(x.application)),
            ],
        ),
        EventModel::ChannelCreated(x) => JsonData::Obj(
            seq![("type"@, JsonData::Str("ChannelCreated"@)), ("timestamp"@, JsonData::Str(x.timestamp))]
                + opt_channel_member(x.channel) + seq![
                ("asterisk_id"@, JsonData::Str(x.asterisk_id)),
                ("application"@, JsonData::Str(x.application)),
            ],
        ),
        EventModel::ChannelDestroyed(x) => JsonData::Obj(
            seq![
                ("type"@, JsonData::Str("ChannelDestroyed"@)),
                ("timestamp"@, JsonData::Str(x.timestamp)),
                ("cause"@, JsonData::Int(x.cause)),
                ("cause_txt"@, JsonData::Str(x.cause_txt)),
                ("channel"@, crate::channel::channel_to_json(x.channel)),
                ("asterisk_id"@, JsonData::Str(x.asterisk_id)),
                ("application"@, JsonData::Str(x.application)),
            ],
        ),
        EventModel::ChannelVarset(x) => JsonData::Obj(
            seq![
                ("type"@, JsonData::Str("ChannelVarset"@)),
                ("timestamp"@, JsonData::Str(x.timestamp)),
                ("variable"@, JsonData::Str(x.variable)),
                ("value"@, JsonData::Str(x.value)),
            ] + opt_channel_member(x.channel) + seq![
                ("asterisk_id"@, JsonData::Str(x.asterisk_id)),
                ("application"@, JsonData::Str(x.application)),
            ],
        ),
        EventModel::ChannelHangupRequest(x) => JsonData::Obj(
            seq![
                ("type"@, JsonData::Str("ChannelHangupRequest"@)),
                ("timestamp"@, JsonData::Str(x.timestamp)),
            ] + opt_soft_member(x.soft) + seq![
                ("cause"@, JsonData::Int(x.cause)),
                ("channel"@, crate::channel::channel_to_json(x.channel)),
                ("asterisk_id"@, JsonData::Str(x.asterisk_id)),
                ("application"@, JsonData::Str(x.application)),
            ],
        ),
        EventModel::ChannelDialplan(x) => JsonData::Obj(
            seq![
                ("type"@, JsonData::Str("ChannelDialplan"@)),
                ("timestamp"@, JsonData::Str(x.timestamp)),
                ("dialplan_app"@, JsonData::Str(x.dialplan_app)),
                ("dialplan_app_data"@, JsonData::Str(x.dialplan_app_data)),
                ("channel"@, crate::channel::channel_to_json(x.channel)),
                ("asterisk_id"@, JsonData::Str(x.asterisk_id)),
                ("application"@, JsonData::Str(x.application)),
            ],
        ),
        EventModel::ChannelStateChange(x) => JsonData::Obj(
            seq![
                ("type"@, JsonData::Str("ChannelStateChange"@)),
                ("timestamp"@, JsonData::Str(x.timestamp)),
                ("channel"@, crate::channel::channel_to_json(x.channel)),
                ("asterisk_id"@, JsonData::Str(x.asterisk_id)),
                ("application"@, JsonData::Str(x.application)),
            ],
        ),
        EventModel::ChannelDtmfReceived(x) => JsonData::Obj(
            seq![
                ("type"@, JsonData::Str("ChannelDtmfReceived"@)),
                ("timestamp"@, JsonData::Str(x.timestamp)),
                ("digit"@, JsonData::Str(x.digit)),
                ("duration_ms"@, JsonData::Int(x.duration_ms)),
                ("channel"@, crate::channel::channel_to_json(x.channel)),
                ("asterisk_id"@, JsonData::Str(x.asterisk_id)),
                ("application"@, JsonData::Str(x.application)),
            ],
        ),
        EventModel::DeviceStateChanged(x) => JsonData::Obj(
            seq![
                ("type"@, JsonData::Str("DeviceStateChanged"@)),
                ("timestamp"@, JsonData::Str(x.timestamp)),
                ("device_state"@, crate::device::device_state_to_json(x.device_state)),
                ("asterisk_id"@, JsonData::Str(x.asterisk_id)),
                ("application"@, JsonData::Str(x.application)),
            ],
        ),
        EventModel::Unknown => JsonData::Obj(seq![("type"@, JsonData::Str("Unknown"@))]),
    }
}

/// The member an optional snapshot contributes.
pub open spec fn opt_channel_member(oc: Option<ChannelModel>) -> Seq<(Seq<char>, JsonData)> {
    match oc {
        Some(c) => seq![("channel"@, crate::channel::channel_to_json(c))],
        None => Seq::empty(),
    }
}

/// The member an optional `soft` flag contributes.
pub open spec fn opt_soft_member(ob: Option<bool>) -> Seq<(Seq<char>, JsonData)> {
    match ob {
        Some(b) => seq![("soft"@, JsonData::Bool(b))],
        None => Seq::empty(),
    }
}

fn push_member(ms: &mut Vec<Member>, key: &str, value: Json)
    ensures
        jmodel_members_vec(*final(ms)) == jmodel_members_vec(*old(ms)) + seq![
            (key@, jmodel(value)),
        ],
{
    let ghost prev = ms@;
    ms.push(Member { key: key.to_owned(), value });
    proof {
        crate::json::lemma_jmodel_members_seq(prev);
        crate::json::lemma_jmodel_members_seq(ms@);
        assert(jmodel_members_vec(*ms) =~= jmodel_members_vec(*old(ms)) + seq![
            (key@, jmodel(ms@[prev.len() as int].value)),
        ]);
    }
}

fn str_member(ms: &mut Vec<Member>, key: &str, value: &String)
    ensures
        jmodel_members_vec(*final(ms)) == jmodel_members_vec(*old(ms)) + seq![
            (key@, JsonData::Str(value@)),
        ],
{
    push_member(ms, key, Json::Str(value.clone()));
}

fn args_json(args: &Vec<String>) -> (r: Json)
    ensures
        jmodel(r) == JsonData::Arr(strs_to_json(args.deep_view())),
{
    let mut items: Vec<Json> = Vec::new();
    let mut i: usize = 0;
    while i < args.len()
        invariant
            i <= args.len(),
            crate::json::jmodel_seq(items@) == strs_to_json(args.deep_view().take(i as int)),
        decreases args.len() - i,
    {
        let ghost prev = items@;
        items.push(Json::Str(args[i].clone()));
        proof {
            crate::json::lemma_jmodel_seq(prev);
            crate::json::lemma_jmodel_seq(items@);
            assert(items@.len() == prev.len() + 1);
            assert(forall|t: int| 0 <= t < prev.len() ==> items@[t] == prev[t]);
            assert(forall|t: int|
                0 <= t < i ==> #[trigger] crate::json::jmodel_seq(items@)[t] == strs_to_json(
                    args.deep_view().take(i as int),
                )[t]);
            assert(crate::json::jmodel_seq(items@)[i as int] == JsonData::Str(
                args.deep_view()[i as int],
            ));
            assert(crate::json::jmodel_seq(items@) =~= strs_to_json(
                args.deep_view().take(i + 1),
            ));
        }
        i += 1;
    }
    assert(args.deep_view().take(args.len() as int) =~= args.deep_view());
    Json::Arr(items)
}

impl Event {
    /// Encodes this event as a JSON value.
    #[verifier::rlimit(100)]
    #[verifier::spinoff_prover]
    pub fn to_json(&self) -> (r: Json)
        ensures
            jmodel(r) == event_to_json(self@),
    {
        let mut ms: Vec<Member> = Vec::new();
        match self {
            Event::StasisStart(x) => {
                push_member(&mut ms, "type", Json::Str(String::from_str("StasisStart")));
                str_member(&mut ms, "timestamp", &x.timestamp);
                push_member(&mut ms, "args", args_json(&x.args));
                push_member(&mut ms, "channel", x.channel.to_json());
                str_member(&mut ms, "asterisk_id", &x.asterisk_id);
                str_member(&mut ms, "application", &x.application);
            },
            Event::StasisEnd(x) => {
                push_member(&mut ms, "type", Json::Str(String::from_str("StasisEnd")));
                str_member(&mut ms, "timestamp", &x.timestamp);
                push_member(&mut ms, "channel", x.channel.to_json());
                str_member(&mut ms, "asterisk_id", &x.asterisk_id);
                str_member(&mut ms, "application", &x.application);
            },
            Event::ChannelCreated(x) => {
                push_member(&mut ms, "type", Json::Str(String::from_str("ChannelCreated")));
                str_member(&mut ms, "timestamp", &x.timestamp);
                match &x.channel {
                    Some(c) => push_member(&mut ms, "channel", c.to_json()),
                    None => {},
                }
                str_member(&mut ms, "asterisk_id", &x.asterisk_id);
                str_member(&mut ms, "application", &x.application);
            },
            Event::ChannelDestroyed(x) => {
                push_member(&mut ms, "type", Json::Str(String::from_str("ChannelDestroyed")));
                str_member(&mut ms, "timestamp", &x.timestamp);
                push_member(&mut ms, "cause", Json::Int(x.cause as i64));
                str_member(&mut ms, "cause_txt", &x.cause_txt);
                push_member(&mut ms, "channel", x.channel.to_json());
                str_member(&mut ms, "asterisk_id", &x.asterisk_id);
                str_member(&mut ms, "application", &x.application);
            },
            Event::ChannelVarset(x) => {
                push_member(&mut ms, "type", Json::Str(String::from_str("ChannelVarset")));
                str_member(&mut ms, "timestamp", &x.timestamp);
                str_member(&mut ms, "variable", &x.variable);
                str_member(&mut ms, "value", &x.value);
                match &x.channel {
                    Some(c) => push_member(&mut ms, "channel", c.to_json()),
                    None => {},
                }
                str_member(&mut ms, "asterisk_id", &x.asterisk_id);
                str_member(&mut ms, "application", &x.application);
            },
            Event::ChannelHangupRequest(x) => {
                push_member(&mut ms, "type", Json::Str(String::from_str("ChannelHangupRequest")));
                str_member(&mut ms, "timestamp", &x.timestamp);
                match x.soft {
                    Some(b) => push_member(&mut ms, "soft", Json::Bool(b)),
                    None => {},
                }
                push_member(&mut ms, "cause", Json::Int(x.cause as i64));
                push_member(&mut ms, "channel", x.channel.to_json());
                str_member(&mut ms, "asterisk_id", &x.asterisk_id);
                str_member(&mut ms, "application", &x.application);
            },
            Event::ChannelDialplan(x) => {
                push_member(&mut ms, "type", Json::Str(String::from_str("ChannelDialplan")));
                str_member(&mut ms, "timestamp", &x.timestamp);
                str_member(&mut ms, "dialplan_app", &x.dialplan_app);
                str_member(&mut ms, "dialplan_app_data", &x.dialplan_app_data);
                push_member(&mut ms, "channel", x.channel.to_json());
                str_member(&mut ms, "asterisk_id", &x.asterisk_id);
                str_member(&mut ms, "application", &x.application);
            },
            Event::ChannelStateChange(x) => {
                push_member(&mut ms, "type", Json::Str(String::from_str("ChannelStateChange")));
                str_member(&mut ms, "timestamp", &x.timestamp);
                push_member(&mut ms, "channel", x.channel.to_json());
                str_member(&mut ms, "asterisk_id", &x.asterisk_id);
                str_member(&mut ms, "application", &x.application);
            },
            Event::ChannelDtmfReceived(x) => {
                push_member(&mut ms, "type", Json::Str(String::from_str("ChannelDtmfReceived")));
                str_member(&mut ms, "timestamp", &x.timestamp);
                str_member(&mut ms, "digit", &x.digit);
                push_member(&mut ms, "duration_ms", Json::Int(x.duration_ms as i64));
                push_member(&mut ms, "channel", x.channel.to_json());
                str_member(&mut ms, "asterisk_id", &x.asterisk_id);
                str_member(&mut ms, "application", &x.application);
            },
            Event::DeviceStateChanged(x) => {
                push_member(&mut ms, "type", Json::Str(String::from_str("DeviceStateChanged")));
                str_member(&mut ms, "timestamp", &x.timestamp);
                push_member(&mut ms, "device_state", x.device_state.to_json());
                str_member(&mut ms, "asterisk_id", &x.asterisk_id);
                str_member(&mut ms, "application", &x.application);
            },
            Event::Unknown => {
                push_member(&mut ms, "type", Json::Str(String::from_str("Unknown")));
            },
        }
        let r = Json::Obj(ms);
        proof {
            assert(jmodel(r)->Obj_0 =~= event_to_json(self@)->Obj_0);
        }
        r
    }

    /// Encodes this event as JSON text.
    pub fn encode(&self) -> (r: String)
        ensures
            r@ == crate::json::ser_json(event_to_json(self@)),
    {
        self.to_json().to_string()
    }
}

/// An event whose numeric fields fit their carriers; the view of every
/// executable event satisfies this.
pub open spec fn event_model_wf(em: EventModel) -> bool {
    match em {
        EventModel::StasisStart(x) => crate::channel::channel_wf(x.channel),
        EventModel::StasisEnd(x) => crate::channel::channel_wf(x.channel),
        EventModel::ChannelCreated(x) => match x.channel {
            Some(c) => crate::channel::channel_wf(c),
            None => true,
        },
        EventModel::ChannelDestroyed(x) => crate::channel::channel_wf(x.channel) && i32::MIN
            <= x.cause <= i32::MAX,
        EventModel::ChannelVarset(x) => match x.channel {
            Some(c) => crate::channel::channel_wf(c),
            None => true,
        },
        EventModel::ChannelHangupRequest(x) => crate::channel::channel_wf(x.channel) && i32::MIN
            <= x.cause <= i32::MAX,
        EventModel::ChannelDialplan(x) => crate::channel::channel_wf(x.channel),
        EventModel::ChannelStateChange(x) => crate::channel::channel_wf(x.channel),
        EventModel::ChannelDtmfReceived(x) => crate::channel::channel_wf(x.channel) && i32::MIN
            <= x.duration_ms <= i32::MAX,
        EventModel::DeviceStateChanged(_) => true,
        EventModel::Unknown => true,
    }
}

proof fn lemma_event_key_facts()
    ensures
        "type"@.len() == 4,
        "timestamp"@.len() == 9,
        "args"@.len() == 4,
        "channel"@.len() == 7,
        "asterisk_id"@.len() == 11,
        "application"@.len() == 11,
        "cause"@.len() == 5,
        "cause_txt"@.len() == 9,
        "variable"@.len() == 8,
        "value"@.len() == 5,
        "soft"@.len() == 4,
        "dialplan_app"@.len() == 12,
        "dialplan_app_data"@.len() == 17,
        "digit"@.len() == 5,
        "duration_ms"@.len() == 11,
        "device_state"@.len() == 12,
        "type"@[0] == 't' && "args"@[0] == 'a' && "soft"@[0] == 's',
        "timestamp"@[0] == 't' && "cause_txt"@[0] == 'c',
        "asterisk_id"@[0] == 'a' && "application"@[0] == 'a',
        "asterisk_id"@[1] == 's' && "application"@[1] == 'p',
        "cause"@[0] == 'c' && "value"@[0] == 'v' && "digit"@[0] == 'd',
        "duration_ms"@[0] == 'd',
        "StasisStart"@.len() == 11,
        "StasisEnd"@.len() == 9,
        "ChannelCreated"@.len() == 14,
        "ChannelDestroyed"@.len() == 16,
        "ChannelVarset"@.len() == 13,
        "ChannelHangupRequest"@.len() == 20,
        "ChannelDialplan"@.len() == 15,
        "ChannelStateChange"@.len() == 18,
        "ChannelDtmfReceived"@.len() == 19,
        "DeviceStateChanged"@.len() == 18,
        "Unknown"@.len() == 7,
        "ChannelStateChange"@[0] == 'C' && "DeviceStateChanged"@[0] == 'D',
{
    reveal_strlit("type");
    reveal_strlit("timestamp");
    reveal_strlit("args");
    reveal_strlit("channel");
    reveal_strlit("asterisk_id");
    reveal_strlit("application");
    reveal_strlit("cause");
    reveal_strlit("cause_txt");
    reveal_strlit("variable");
    reveal_strlit("value");
    reveal_strlit("soft");
    reveal_strlit("dialplan_app");
    reveal_strlit("dialplan_app_data");
    reveal_strlit("digit");
    reveal_strlit("duration_ms");
    reveal_strlit("device_state");
    reveal_strlit("StasisStart");
    reveal_strlit("StasisEnd");
    reveal_strlit("ChannelCreated");
    reveal_strlit("ChannelDestroyed");
    reveal_strlit("ChannelVarset");
    reveal_strlit("ChannelHangupRequest");
    reveal_strlit("ChannelDialplan");
    reveal_strlit("ChannelStateChange");
    reveal_strlit("ChannelDtmfReceived");
    reveal_strlit("DeviceStateChanged");
    reveal_strlit("Unknown");
}

#[verifier::rlimit(100)]
#[verifier::spinoff_prover]
proof fn lemma_rt_stasis_start(x: StasisStartModel)
    requires
        crate::channel::channel_wf(x.channel),
    ensures
        event_of_json(event_to_json(EventModel::StasisStart(x))) == Some(
            EventModel::StasisStart(x),
        ),
{
    lemma_event_key_facts();
    let ms = event_to_json(EventModel::StasisStart(x))->Obj_0;
    crate::json::lemma_obj_lookup_at(ms, 0);
    crate::json::lemma_obj_lookup_at(ms, 1);
    crate::json::lemma_obj_lookup_at(ms, 2);
    crate::json::lemma_obj_lookup_at(ms, 3);
    crate::json::lemma_obj_lookup_at(ms, 4);
    crate::json::lemma_obj_lookup_at(ms, 5);
    crate::json::lemma_all_strings_of_strs(x.args);
    crate::channel::lemma_channel_roundtrip(x.channel);
}

#[verifier::rlimit(100)]
#[verifier::spinoff_prover]
proof fn lemma_rt_stasis_end(x: StasisEndModel)
    requires
        crate::channel::channel_wf(x.channel),
    ensures
        event_of_json(event_to_json(EventModel::StasisEnd(x))) == Some(EventModel::StasisEnd(x)),
{
    lemma_event_key_facts();
    let ms = event_to_json(EventModel::StasisEnd(x))->Obj_0;
    crate::json::lemma_obj_lookup_at(ms, 0);
    crate::json::lemma_obj_lookup_at(ms, 1);
    crate::json::lemma_obj_lookup_at(ms, 2);
    crate::json::lemma_obj_lookup_at(ms, 3);
    crate::json::lemma_obj_lookup_at(ms, 4);
    crate::channel::lemma_channel_roundtrip(x.channel);
}

#[verifier::rlimit(100)]
#[verifier::spinoff_prover]
proof fn lemma_rt_channel_created(x: ChannelCreatedModel)
    requires
        match x.channel {
            Some(c) => crate::channel::channel_wf(c),
            None => true,
        },
    ensures
        event_of_json(event_to_json(EventModel::ChannelCreated(x))) == Some(
            EventModel::ChannelCreated(x),
        ),
{
    lemma_event_key_facts();
    let ms = event_to_json(EventModel::ChannelCreated(x))->Obj_0;
    match x.channel {
        Some(c) => {
            assert(ms =~= seq![
                ("type"@, JsonData::Str("ChannelCreated"@)),
                ("timestamp"@, JsonData::Str(x.timestamp)),
                ("channel"@, crate::channel::channel_to_json(c)),
                ("asterisk_id"@, JsonData::Str(x.asterisk_id)),
                ("application"@, JsonData::Str(x.application)),
            ]);
            crate::json::lemma_obj_lookup_at(ms, 0);
            crate::json::lemma_obj_lookup_at(ms, 1);
            crate::json::lemma_obj_lookup_at(ms, 2);
            crate::json::lemma_obj_lookup_at(ms, 3);
            crate::json::lemma_obj_lookup_at(ms, 4);
            crate::channel::lemma_channel_roundtrip(c);
        },
        None => {
            assert(ms =~= seq![
                ("type"@, JsonData::Str("ChannelCreated"@)),
                ("timestamp"@, JsonData::Str(x.timestamp)),
                ("asterisk_id"@, JsonData::Str(x.asterisk_id)),
                ("application"@, JsonData::Str(x.application)),
            ]);
            crate::json::lemma_obj_lookup_at(ms, 0);
            crate::json::lemma_obj_lookup_at(ms, 1);
            crate::json::lemma_obj_lookup_at(ms, 2);
            crate::json::lemma_obj_lookup_at(ms, 3);
            crate::json::lemma_obj_lookup_absent(ms, "channel"@);
        },
    }
}

#[verifier::rlimit(100)]
#[verifier::spinoff_prover]
proof fn lemma_rt_channel_destroyed(x: ChannelDestroyedModel)
    requires
        crate::channel::channel_wf(x.channel),
        i32::MIN <= x.cause <= i32::MAX,
    ensures
        event_of_json(event_to_json(EventModel::ChannelDestroyed(x))) == Some(
            EventModel::ChannelDestroyed(x),
        ),
{
    lemma_event_key_facts();
    let ms = event_to_json(EventModel::ChannelDestroyed(x))->Obj_0;
    crate::json::lemma_obj_lookup_at(ms, 0);
    crate::json::lemma_obj_lookup_at(ms, 1);
    crate::json::lemma_obj_lookup_at(ms, 2);
    crate::json::lemma_obj_lookup_at(ms, 3);
    crate::json::lemma_obj_lookup_at(ms, 4);
    crate::json::lemma_obj_lookup_at(ms, 5);
    crate::json::lemma_obj_lookup_at(ms, 6);
    crate::channel::lemma_channel_roundtrip(x.channel);
}

#[verifier::rlimit(100)]
#[verifier::spinoff_prover]
proof fn lemma_rt_channel_varset(x: ChannelVarsetModel)
    requires
        match x.channel {
            Some(c) => crate::channel::channel_wf(c),
            None => true,
        },
    ensures
        event_of_json(event_to_json(EventModel::ChannelVarset(x))) == Some(
            EventModel::ChannelVarset(x),
        ),
{
    lemma_event_key_facts();
    let ms = event_to_json(EventModel::ChannelVarset(x))->Obj_0;
    match x.channel {
        Some(c) => {
            assert(ms =~= seq![
                ("type"@, JsonData::Str("ChannelVarset"@)),
                ("timestamp"@, JsonData::Str(x.timestamp)),
                ("variable"@, JsonData::Str(x.variable)),
                ("value"@, JsonData::Str(x.value)),
                ("channel"@, crate::channel::channel_to_json(c)),
                ("asterisk_id"@, JsonData::Str(x.asterisk_id)),
                ("application"@, JsonData::Str(x.application)),
            ]);
            crate::json::lemma_obj_lookup_at(ms, 0);
            crate::json::lemma_obj_lookup_at(ms, 1);
            crate::json::lemma_obj_lookup_at(ms, 2);
            crate::json::lemma_obj_lookup_at(ms, 3);
            crate::json::lemma_obj_lookup_at(ms, 4);
            crate::json::lemma_obj_lookup_at(ms, 5);
            crate::json::lemma_obj_lookup_at(ms, 6);
            crate::channel::lemma_channel_roundtrip(c);
        },
        None => {
            assert(ms =~= seq![
                ("type"@, JsonData::Str("ChannelVarset"@)),
                ("timestamp"@, JsonData::Str(x.timestamp)),
                ("variable"@, JsonData::Str(x.variable)),
                ("value"@, JsonData::Str(x.value)),
                ("asterisk_id"@, JsonData::Str(x.asterisk_id)),
                ("application"@, JsonData::Str(x.application)),
            ]);
            crate::json::lemma_obj_lookup_at(ms, 0);
            crate::json::lemma_obj_lookup_at(ms, 1);
            crate::json::lemma_obj_lookup_at(ms, 2);
            crate::json::lemma_obj_lookup_at(ms, 3);
            crate::json::lemma_obj_lookup_at(ms, 4);
            crate::json::lemma_obj_lookup_at(ms, 5);
            crate::json::lemma_obj_lookup_absent(ms, "channel"@);
        },
    }
}

#[verifier::rlimit(100)]
#[verifier::spinoff_prover]
proof fn lemma_rt_channel_hangup_request(x: ChannelHangupRequestModel)
    requires
        crate::channel::channel_wf(x.channel),
        i32::MIN <= x.cause <= i32::MAX,
    ensures
        event_of_json(event_to_json(EventModel::ChannelHangupRequest(x))) == Some(
            EventModel::ChannelHangupRequest(x),
        ),
{
    lemma_event_key_facts();
    let ms = event_to_json(EventModel::ChannelHangupRequest(x))->Obj_0;
    match x.soft {
        Some(b) => {
            assert(ms =~= seq![
                ("type"@, JsonData::Str("ChannelHangupRequest"@)),
                ("timestamp"@, JsonData::Str(x.timestamp)),
                ("soft"@, JsonData::Bool(b)),
                ("cause"@, JsonData::Int(x.cause)),
                ("channel"@, crate::channel::channel_to_json(x.channel)),
                ("asterisk_id"@, JsonData::Str(x.asterisk_id)),
                ("application"@, JsonData::Str(x.application)),
            ]);
            crate::json::lemma_obj_lookup_at(ms, 0);
            crate::json::lemma_obj_lookup_at(ms, 1);
            crate::json::lemma_obj_lookup_at(ms, 2);
            crate::json::lemma_obj_lookup_at(ms, 3);
            crate::json::lemma_obj_lookup_at(ms, 4);
            crate::json::lemma_obj_lookup_at(ms, 5);
            crate::json::lemma_obj_lookup_at(ms, 6);
        },
        None => {
            assert(ms =~= seq![
                ("type"@, JsonData::Str("ChannelHangupRequest"@)),
                ("timestamp"@, JsonData::Str(x.timestamp)),
                ("cause"@, JsonData::Int(x.cause)),
                ("channel"@, crate::channel::channel_to_json(x.channel)),
                ("asterisk_id"@, JsonData::Str(x.asterisk_id)),
                ("application"@, JsonData::Str(x.application)),
            ]);
            crate::json::lemma_obj_lookup_at(ms, 0);
            crate::json::lemma_obj_lookup_at(ms, 1);
            crate::json::lemma_obj_lookup_at(ms, 2);
            crate::json::lemma_obj_lookup_at(ms, 3);
            crate::json::lemma_obj_lookup_at(ms, 4);
            crate::json::lemma_obj_lookup_at(ms, 5);
            crate::json::lemma_obj_lookup_absent(ms, "soft"@);
        },
    }
    crate::channel::lemma_channel_roundtrip(x.channel);
}

#[verifier::rlimit(100)]
#[verifier::spinoff_prover]
proof fn lemma_rt_channel_dialplan(x: ChannelDialplanModel)
    requires
        crate::channel::channel_wf(x.channel),
    ensures
        event_of_json(event_to_json(EventModel::ChannelDialplan(x))) == Some(
            EventModel::ChannelDialplan(x),
        ),
{
    lemma_event_key_facts();
    let ms = event_to_json(EventModel::ChannelDialplan(x))->Obj_0;
    crate::json::lemma_obj_lookup_at(ms, 0);
    crate::json::lemma_obj_lookup_at(ms, 1);
    crate::json::lemma_obj_lookup_at(ms, 2);
    crate::json::lemma_obj_lookup_at(ms, 3);
    crate::json::lemma_obj_lookup_at(ms, 4);
    crate::json::lemma_obj_lookup_at(ms, 5);
    crate::json::lemma_obj_lookup_at(ms, 6);
    crate::channel::lemma_channel_roundtrip(x.channel);
}

#[verifier::rlimit(100)]
#[verifier::spinoff_prover]
proof fn lemma_rt_channel_state_change(x: ChannelStateChangeModel)
    requires
        crate::channel::channel_wf(x.channel),
    ensures
        event_of_json(event_to_json(EventModel::ChannelStateChange(x))) == Some(
            EventModel::ChannelStateChange(x),
        ),
{
    lemma_event_key_facts();
    let ms = event_to_json(EventModel::ChannelStateChange(x))->Obj_0;
    crate::json::lemma_obj_lookup_at(ms, 0);
    crate::json::lemma_obj_lookup_at(ms, 1);
    crate::json::lemma_obj_lookup_at(ms, 2);
    crate::json::lemma_obj_lookup_at(ms, 3);
    crate::json::lemma_obj_lookup_at(ms, 4);
    crate::channel::lemma_channel_roundtrip(x.channel);
}

#[verifier::rlimit(100)]
#[verifier::spinoff_prover]
proof fn lemma_rt_channel_dtmf_received(x: ChannelDtmfReceivedModel)
    requires
        crate::channel::channel_wf(x.channel),
        i32::MIN <= x.duration_ms <= i32::MAX,
    ensures
        event_of_json(event_to_json(EventModel::ChannelDtmfReceived(x))) == Some(
            EventModel::ChannelDtmfReceived(x),
        ),
{
    lemma_event_key_facts();
    let ms = event_to_json(EventModel::ChannelDtmfReceived(x))->Obj_0;
    crate::json::lemma_obj_lookup_at(ms, 0);
    crate::json::lemma_obj_lookup_at(ms, 1);
    crate::json::lemma_obj_lookup_at(ms, 2);
    crate::json::lemma_obj_lookup_at(ms, 3);
    crate::json::lemma_obj_lookup_at(ms, 4);
    crate::json::lemma_obj_lookup_at(ms, 5);
    crate::json::lemma_obj_lookup_at(ms, 6);
    crate::channel::lemma_channel_roundtrip(x.channel);
}

#[verifier::rlimit(100)]
#[verifier::spinoff_prover]
proof fn lemma_rt_device_state_changed(x: DeviceStateChangedModel)
    ensures
        event_of_json(event_to_json(EventModel::DeviceStateChanged(x))) == Some(
            EventModel::DeviceStateChanged(x),
        ),
{
    lemma_event_key_facts();
    let ms = event_to_json(EventModel::DeviceStateChanged(x))->Obj_0;
    crate::json::lemma_obj_lookup_at(ms, 0);
    crate::json::lemma_obj_lookup_at(ms, 1);
    crate::json::lemma_obj_lookup_at(ms, 2);
    crate::json::lemma_obj_lookup_at(ms, 3);
    crate::json::lemma_obj_lookup_at(ms, 4);
    crate::device::lemma_device_state_roundtrip(x.device_state);
}

/// The round trip of the schema: encoding any event and decoding the
/// result yields the same event, field for field, nested records included.
pub proof fn lemma_event_roundtrip(em: EventModel)
    requires
        event_model_wf(em),
    ensures
        event_of_json(event_to_json(em)) == Some(em),
{
    match em {
        EventModel::StasisStart(x) => lemma_rt_stasis_start(x),
        EventModel::StasisEnd(x) => lemma_rt_stasis_end(x),
        EventModel::ChannelCreated(x) => lemma_rt_channel_created(x),
        EventModel::ChannelDestroyed(x) => lemma_rt_channel_destroyed(x),
        EventModel::ChannelVarset(x) => lemma_rt_channel_varset(x),
        EventModel::ChannelHangupRequest(x) => lemma_rt_channel_hangup_request(x),
        EventModel::ChannelDialplan(x) => lemma_rt_channel_dialplan(x),
        EventModel::ChannelStateChange(x) => lemma_rt_channel_state_change(x),
        EventModel::ChannelDtmfReceived(x) => lemma_rt_channel_dtmf_received(x),
        EventModel::DeviceStateChanged(x) => lemma_rt_device_state_changed(x),
        EventModel::Unknown => {
            lemma_event_key_facts();
            let ms = event_to_json(EventModel::Unknown)->Obj_0;
            crate::json::lemma_obj_lookup_at(ms, 0);
            assert(!known_type("Unknown"@));
        },
    }
}

/// Every well-formed event's encoding serializes and re-parses cleanly.
#[verifier::rlimit(100)]
#[verifier::spinoff_prover]
pub proof fn lemma_event_ser_wf(em: EventModel)
    requires
        event_model_wf(em),
    ensures
        crate::json::ser_wf(event_to_json(em)),
{
    let ms = event_to_json(em)->Obj_0;
    match em {
        EventModel::StasisStart(x) => {
            crate::channel::lemma_channel_ser_wf(x.channel);
            assert(forall|k: int|
                0 <= k < strs_to_json(x.args).len() ==> crate::json::ser_wf(
                    #[trigger] strs_to_json(x.args)[k],
                ));
            crate::json::lemma_ser_wf_items_of(strs_to_json(x.args));
            assert(forall|k: int|
                0 <= k < ms.len() ==> crate::json::ser_wf((#[trigger] ms[k]).1)) by {
                assert(ms[0].1 == JsonData::Str("StasisStart"@));
                assert(ms[1].1 == JsonData::Str(x.timestamp));
                assert(ms[2].1 == JsonData::Arr(strs_to_json(x.args)));
                assert(ms[3].1 == crate::channel::channel_to_json(x.channel));
                assert(ms[4].1 == JsonData::Str(x.asterisk_id));
                assert(ms[5].1 == JsonData::Str(x.application));
            }
            crate::json::lemma_ser_wf_members_of(ms);
        },
        EventModel::StasisEnd(x) => {
            crate::channel::lemma_channel_ser_wf(x.channel);
            assert(forall|k: int|
                0 <= k < ms.len() ==> crate::json::ser_wf((#[trigger] ms[k]).1)) by {
                assert(ms[0].1 == JsonData::Str("StasisEnd"@));
                assert(ms[1].1 == JsonData::Str(x.timestamp));
                assert(ms[2].1 == crate::channel::channel_to_json(x.channel));
                assert(ms[3].1 == JsonData::Str(x.asterisk_id));
                assert(ms[4].1 == JsonData::Str(x.application));
            }
            crate::json::lemma_ser_wf_members_of(ms);
        },
        EventModel::ChannelCreated(x) => {
            match x.channel {
                Some(c) => {
                    crate::channel::lemma_channel_ser_wf(c);
                    assert(forall|k: int|
                        0 <= k < ms.len() ==> crate::json::ser_wf((#[trigger] ms[k]).1)) by {
                        assert(ms =~= seq![
                            ("type"@, JsonData::Str("ChannelCreated"@)),
                            ("timestamp"@, JsonData::Str(x.timestamp)),
                            ("channel"@, crate::channel::channel_to_json(c)),
                            ("asterisk_id"@, JsonData::Str(x.asterisk_id)),
                            ("application"@, JsonData::Str(x.application)),
                        ]);
                    }
                },
                None => {
                    assert(forall|k: int|
                        0 <= k < ms.len() ==> crate::json::ser_wf((#[trigger] ms[k]).1)) by {
                        assert(ms =~= seq![
                            ("type"@, JsonData::Str("ChannelCreated"@)),
                            ("timestamp"@, JsonData::Str(x.timestamp)),
                            ("asterisk_id"@, JsonData::Str(x.asterisk_id)),
                            ("application"@, JsonData::Str(x.application)),
                        ]);
                    }
                },
            }
            crate::json::lemma_ser_wf_members_of(ms);
        },
        EventModel::ChannelDestroyed(x) => {
            crate::channel::lemma_channel_ser_wf(x.channel);
            assert(forall|k: int|
                0 <= k < ms.len() ==> crate::json::ser_wf((#[trigger] ms[k]).1)) by {
                assert(ms[0].1 == JsonData::Str("ChannelDestroyed"@));
                assert(ms[1].1 == JsonData::Str(x.timestamp));
                assert(ms[2].1 == JsonData::Int(x.cause));
                assert(ms[3].1 == JsonData::Str(x.cause_txt));
                assert(ms[4].1 == crate::channel::channel_to_json(x.channel));
                assert(ms[5].1 == JsonData::Str(x.asterisk_id));
                assert(ms[6].1 == JsonData::Str(x.application));
            }
            crate::json::lemma_ser_wf_members_of(ms);
        },
        EventModel::ChannelVarset(x) => {
            match x.channel {
                Some(c) => {
                    crate::channel::lemma_channel_ser_wf(c);
                    assert(forall|k: int|
                        0 <= k < ms.len() ==> crate::json::ser_wf((#[trigger] ms[k]).1)) by {
                        assert(ms =~= seq![
                            ("type"@, JsonData::Str("ChannelVarset"@)),
                            ("timestamp"@, JsonData::Str(x.timestamp)),
                            ("variable"@, JsonData::Str(x.variable)),
                            ("value"@, JsonData::Str(x.value)),
                            ("channel"@, crate::channel::channel_to_json(c)),
                            ("asterisk_id"@, JsonData::Str(x.asterisk_id)),
                            ("application"@, JsonData::Str(x.application)),
                        ]);
                    }
                },
                None => {
                    assert(forall|k: int|
                        0 <= k < ms.len() ==> crate::json::ser_wf((#[trigger] ms[k]).1)) by {
                        assert(ms =~= seq![
                            ("type"@, JsonData::Str("ChannelVarset"@)),
                            ("timestamp"@, JsonData::Str(x.timestamp)),
                            ("variable"@, JsonData::Str(x.variable)),
                            ("value"@, JsonData::Str(x.value)),
                            ("asterisk_id"@, JsonData::Str(x.asterisk_id)),
                            ("application"@, JsonData::Str(x.application)),
                        ]);
                    }
                },
            }
            crate::json::lemma_ser_wf_members_of(ms);
        },
        EventModel::ChannelHangupRequest(x) => {
            crate::channel::lemma_channel_ser_wf(x.channel);
            match x.soft {
                Some(b) => {
                    assert(forall|k: int|
                        0 <= k < ms.len() ==> crate::json::ser_wf((#[trigger] ms[k]).1)) by {
                        assert(ms =~= seq![
                            ("type"@, JsonData::Str("ChannelHangupRequest"@)),
                            ("timestamp"@, JsonData::Str(x.timestamp)),
                            ("soft"@, JsonData::Bool(b)),
                            ("cause"@, JsonData::Int(x.cause)),
                            ("channel"@, crate::channel::channel_to_json(x.channel)),
                            ("asterisk_id"@, JsonData::Str(x.asterisk_id)),
                            ("application"@, JsonData::Str(x.application)),
                        ]);
                    }
                },
                None => {
                    assert(forall|k: int|
                        0 <= k < ms.len() ==> crate::json::ser_wf((#[trigger] ms[k]).1)) by {
                        assert(ms =~= seq![
                            ("type"@, JsonData::Str("ChannelHangupRequest"@)),
                            ("timestamp"@, JsonData::Str(x.timestamp)),
                            ("cause"@, JsonData::Int(x.cause)),
                            ("channel"@, crate::channel::channel_to_json(x.channel)),
                            ("asterisk_id"@, JsonData::Str(x.asterisk_id)),
                            ("application"@, JsonData::Str(x.application)),
                        ]);
                    }
                },
            }
            crate::json::lemma_ser_wf_members_of(ms);
        },
        EventModel::ChannelDialplan(x) => {
            crate::channel::lemma_channel_ser_wf(x.channel);
            assert(forall|k: int|
                0 <= k < ms.len() ==> crate::json::ser_wf((#[trigger] ms[k]).1)) by {
                assert(ms[0].1 == JsonData::Str("ChannelDialplan"@));
                assert(ms[1].1 == JsonData::Str(x.timestamp));
                assert(ms[2].1 == JsonData::Str(x.dialplan_app));
                assert(ms[3].1 == JsonData::Str(x.dialplan_app_data));
                assert(ms[4].1 == crate::channel::channel_to_json(x.channel));
                assert(ms[5].1 == JsonData::Str(x.asterisk_id));
                assert(ms[6].1 == JsonData::Str(x.application));
            }
            crate::json::lemma_ser_wf_members_of(ms);
        },
        EventModel::ChannelStateChange(x) => {
            crate::channel::lemma_channel_ser_wf(x.channel);
            assert(forall|k: int|
                0 <= k < ms.len() ==> crate::json::ser_wf((#[trigger] ms[k]).1)) by {
                assert(ms[0].1 == JsonData::Str("ChannelStateChange"@));
                assert(ms[1].1 == JsonData::Str(x.timestamp));
                assert(ms[2].1 == crate::channel::channel_to_json(x.channel));
                assert(ms[3].1 == JsonData::Str(x.asterisk_id));
                assert(ms[4].1 == JsonData::Str(x.application));
            }
            crate::json::lemma_ser_wf_members_of(ms);
        },
        EventModel::ChannelDtmfReceived(x) => {
            crate::channel::lemma_channel_ser_wf(x.channel);
            assert(forall|k: int|
                0 <= k < ms.len() ==> crate::json::ser_wf((#[trigger] ms[k]).1)) by {
                assert(ms[0].1 == JsonData::Str("ChannelDtmfReceived"@));
                assert(ms[1].1 == JsonData::Str(x.timestamp));
                assert(ms[2].1 == JsonData::Str(x.digit));
                assert(ms[3].1 == JsonData::Int(x.duration_ms));
                assert(ms[4].1 == crate::channel::channel_to_json(x.channel));
                assert(ms[5].1 == JsonData::Str(x.asterisk_id));
                assert(ms[6].1 == JsonData::Str(x.application));
            }
            crate::json::lemma_ser_wf_members_of(ms);
        },
        EventModel::DeviceStateChanged(x) => {
            crate::device::lemma_device_state_ser_wf(x.device_state);
            assert(forall|k: int|
                0 <= k < ms.len() ==> crate::json::ser_wf((#[trigger] ms[k]).1)) by {
                assert(ms[0].1 == JsonData::Str("DeviceStateChanged"@));
                assert(ms[1].1 == JsonData::Str(x.timestamp));
                assert(ms[2].1 == crate::device::device_state_to_json(x.device_state));
                assert(ms[3].1 == JsonData::Str(x.asterisk_id));
                assert(ms[4].1 == JsonData::Str(x.application));
            }
            crate::json::lemma_ser_wf_members_of(ms);
        },
        EventModel::Unknown => {
            assert(forall|k: int|
                0 <= k < ms.len() ==> crate::json::ser_wf((#[trigger] ms[k]).1)) by {
                assert(ms[0].1 == JsonData::Str("Unknown"@));
            }
            crate::json::lemma_ser_wf_members_of(ms);
        },
    }
}

/// The whole round trip of the event layer, down to the wire text:
/// encoding any well-formed event and decoding the resulting text yields
/// exactly that event, field for field, nested records included.
pub proof fn lemma_event_text_roundtrip(em: EventModel)
    requires
        event_model_wf(em),
    ensures
        event_decoded(crate::json::ser_json(event_to_json(em))) == Some(em),
{
    lemma_event_ser_wf(em);
    crate::json::lemma_json_roundtrip(event_to_json(em));
    lemma_event_roundtrip(em);
}

/// The view of every decodable event is well formed, so the round trip
/// applies to every event this library constructs.
pub proof fn lemma_event_view_wf(e: Event)
    ensures
        event_model_wf(e@),
{
}

} // verus!
