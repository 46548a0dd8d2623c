//! Device state resources.

use vstd::prelude::*;
use vstd::string::StringExecFns;
use crate::channel::lemma_member_model;
use crate::json::{jmodel, str_field, Json, JsonData, Member};

verus! {

/// The reported state of one device.
pub struct DeviceState {
    pub name: String,
    pub state: String,
}

/// The model of a device state.
pub ghost struct DeviceStateModel {
    pub name: Seq<char>,
    pub state: Seq<char>,
}

impl View for DeviceState {
    type V = DeviceStateModel;

    open spec fn view(&self) -> DeviceStateModel {
        DeviceStateModel { name: self.name@, state: self.state@ }
    }
}

/// The device state a JSON value decodes to, if its members carry one.
pub open spec fn device_state_of_json(d: JsonData) -> Option<DeviceStateModel> {
    match d {
        JsonData::Obj(ms) => match (str_field(ms, "name"@), str_field(ms, "state"@)) {
            (Some(name), Some(state)) => Some(DeviceStateModel { name, state }),
            _ => None,
        },
        _ => None,
    }
}

/// The encoding of a device state.
pub open spec fn device_state_to_json(d: DeviceStateModel) -> JsonData {
    JsonData::Obj(seq![("name"@, JsonData::Str(d.name)), ("state"@, JsonData::Str(d.state))])
}

/// Encoding a device state and decoding it yields the same state.
pub proof fn lemma_device_state_roundtrip(d: DeviceStateModel)
    ensures
        device_state_of_json(device_state_to_json(d)) == Some(d),
{
    reveal_strlit("name");
    reveal_strlit("state");
    assert("name"@.len() == 4);
    assert("state"@.len() == 5);
    let ms = device_state_to_json(d)->Obj_0;
    crate::json::lemma_obj_lookup_at(ms, 0);
    crate::json::lemma_obj_lookup_at(ms, 1);
}

/// A device state's encoding serializes and re-parses cleanly.
pub proof fn lemma_device_state_ser_wf(d: DeviceStateModel)
    ensures
        crate::json::ser_wf(device_state_to_json(d)),
{
    let ms = device_state_to_json(d)->Obj_0;
    assert(forall|k: int| 0 <= k < ms.len() ==> crate::json::ser_wf((#[trigger] ms[k]).1)) by {
        assert(ms[0].1 == JsonData::Str(d.name));
        assert(ms[1].1 == JsonData::Str(d.state));
    }
    crate::json::lemma_ser_wf_members_of(ms);
}

impl DeviceState {
    /// Decodes a device state from a JSON value.
    pub fn from_json(j: &Json) -> (r: Option<DeviceState>)
        ensures
            match r {
                Some(d) => device_state_of_json(jmodel(*j)) == Some(d@),
                None => device_state_of_json(jmodel(*j)) is None,
            },
    {
        match j {
            Json::Obj(ms) => {
                let name = crate::json::get_str(ms, "name");
                let state = crate::json::get_str(ms, "state");
                match (name, state) {
                    (Some(name), Some(state)) => Some(DeviceState { name, state }),
                    _ => None,
                }
            },
            _ => None,
        }
    }

    /// Encodes this device state as a JSON value.
    pub fn to_json(&self) -> (r: Json)
        ensures
            jmodel(r) == device_state_to_json(self@),
    {
        let mut ms: Vec<Member> = Vec::new();
        ms.push(Member { key: String::from_str("name"), value: Json::Str(self.name.clone()) });
        ms.push(Member { key: String::from_str("state"), value: Json::Str(self.state.clone()) });
        let r = Json::Obj(ms);
        proof {
            lemma_member_model(r);
            assert(jmodel(r)->Obj_0 =~= device_state_to_json(self@)->Obj_0);
        }
        r
    }
}

} // verus!
