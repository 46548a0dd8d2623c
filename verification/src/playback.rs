//! Media playback handles.

use vstd::prelude::*;
use vstd::string::StringExecFns;
use crate::json::{jmodel, str_field, Json, JsonData};

verus! {

/// A playback handle, identified by its server-assigned identifier.
pub struct Playback {
    pub id: String,
}

/// The playback identifier a JSON value carries, if any.
pub open spec fn playback_of_json(d: JsonData) -> Option<Seq<char>> {
    match d {
        JsonData::Obj(ms) => str_field(ms, "id"@),
        _ => None,
    }
}

impl Playback {
    /// Decodes a playback handle from a JSON value.
    pub fn from_json(j: &Json) -> (r: Option<Playback>)
        ensures
            match r {
                Some(p) => playback_of_json(jmodel(*j)) == Some(p.id@),
                None => playback_of_json(jmodel(*j)) is None,
            },
    {
        match j {
            Json::Obj(ms) => match crate::json::get_str(ms, "id") {
                Some(id) => Some(Playback { id }),
                None => None,
            },
            _ => None,
        }
    }
}

/// A control operation on a running playback.
#[derive(Clone, Copy, Debug, PartialEq, Eq, Structural)]
pub enum Operation {
    Restart,
    Pause,
    Unpause,
    Reverse,
    Forward,
}

/// The query value of a control operation.
pub open spec fn operation_value(o: Operation) -> Seq<char> {
    match o {
        Operation::Restart => "restart"@,
        Operation::Pause => "pause"@,
        Operation::Unpause => "unpause"@,
        Operation::Reverse => "reverse"@,
        Operation::Forward => "forward"@,
    }
}

impl Operation {
    /// The query value naming this operation.
    pub fn value(&self) -> (r: String)
        ensures
            r@ == operation_value(*self),
    {
        match self {
            Operation::Restart => String::from_str("restart"),
            Operation::Pause => String::from_str("pause"),
            Operation::Unpause => String::from_str("unpause"),
            Operation::Reverse => String::from_str("reverse"),
            Operation::Forward => String::from_str("forward"),
        }
    }
}

} // verus!
