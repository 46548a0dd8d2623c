//! Channel variable resources.

use vstd::prelude::*;
use crate::json::{jmodel, str_field, Json, JsonData};

verus! {

/// A channel variable handle.
pub struct Variable {
    pub id: String,
}

/// The variable identifier a JSON value carries, if any.
pub open spec fn variable_of_json(d: JsonData) -> Option<Seq<char>> {
    match d {
        JsonData::Obj(ms) => str_field(ms, "id"@),
        _ => None,
    }
}

impl Variable {
    /// Decodes a variable handle from a JSON value.
    pub fn from_json(j: &Json) -> (r: Option<Variable>)
        ensures
            match r {
                Some(v) => variable_of_json(jmodel(*j)) == Some(v.id@),
                None => variable_of_json(jmodel(*j)) is None,
            },
    {
        match j {
            Json::Obj(ms) => match crate::json::get_str(ms, "id") {
                Some(id) => Some(Variable { id }),
                None => None,
            },
            _ => None,
        }
    }
}

} // verus!
