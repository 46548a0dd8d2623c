//! Bridge resources.

use vstd::prelude::*;
use crate::json::{jmodel, str_field, Json, JsonData};

verus! {

/// A bridge, identified by its server-assigned identifier.
pub struct Bridge {
    pub id: String,
}

/// The bridge identifier a JSON value carries, if any.
pub open spec fn bridge_of_json(d: JsonData) -> Option<Seq<char>> {
    match d {
        JsonData::Obj(ms) => str_field(ms, "id"@),
        _ => None,
    }
}

impl Bridge {
    /// Decodes a bridge from a JSON value.
    pub fn from_json(j: &Json) -> (r: Option<Bridge>)
        ensures
            match r {
                Some(b) => bridge_of_json(jmodel(*j)) == Some(b.id@),
                None => bridge_of_json(jmodel(*j)) is None,
            },
    {
        match j {
            Json::Obj(ms) => match crate::json::get_str(ms, "id") {
                Some(id) => Some(Bridge { id }),
                None => None,
            },
            _ => None,
        }
    }
}

} // verus!
