//! Recording handles: live recordings in progress and stored recordings.

use vstd::prelude::*;
use crate::json::{jmodel, str_field, Json, JsonData};

verus! {

/// A recording in progress.
pub struct LiveRecording {
    pub id: String,
    pub name: String,
}

/// The live-recording fields a JSON value carries, if both are present.
pub open spec fn live_recording_of_json(d: JsonData) -> Option<(Seq<char>, Seq<char>)> {
    match d {
        JsonData::Obj(ms) => match (str_field(ms, "id"@), str_field(ms, "name"@)) {
            (Some(id), Some(name)) => Some((id, name)),
            _ => None,
        },
        _ => None,
    }
}

impl LiveRecording {
    /// Decodes a live recording from a JSON value.
    pub fn from_json(j: &Json) -> (r: Option<LiveRecording>)
        ensures
            match r {
                Some(x) => live_recording_of_json(jmodel(*j)) == Some((x.id@, x.name@)),
                None => live_recording_of_json(jmodel(*j)) is None,
            },
    {
        match j {
            Json::Obj(ms) => {
                let id = crate::json::get_str(ms, "id");
                let name = crate::json::get_str(ms, "name");
                match (id, name) {
                    (Some(id), Some(name)) => Some(LiveRecording { id, name }),
                    _ => None,
                }
            },
            _ => None,
        }
    }
}

/// A finished recording kept by the server.
pub struct StoredRecording {
    pub id: String,
    pub format: String,
}

/// The stored-recording fields a JSON value carries, if both are present.
pub open spec fn stored_recording_of_json(d: JsonData) -> Option<(Seq<char>, Seq<char>)> {
    match d {
        JsonData::Obj(ms) => match (str_field(ms, "id"@), str_field(ms, "format"@)) {
            (Some(id), Some(format)) => Some((id, format)),
            _ => None,
        },
        _ => None,
    }
}

impl StoredRecording {
    /// Decodes a stored recording from a JSON value.
    pub fn from_json(j: &Json) -> (r: Option<StoredRecording>)
        ensures
            match r {
                Some(x) => stored_recording_of_json(jmodel(*j)) == Some((x.id@, x.format@)),
                None => stored_recording_of_json(jmodel(*j)) is None,
            },
    {
        match j {
            Json::Obj(ms) => {
                let id = crate::json::get_str(ms, "id");
                let format = crate::json::get_str(ms, "format");
                match (id, format) {
                    (Some(id), Some(format)) => Some(StoredRecording { id, format }),
                    _ => None,
                }
            },
            _ => None,
        }
    }
}

} // verus!
