//! The query string: ordered key/value pairs, percent-encoded and joined
//! with `=` and `&`.  Every authenticated request carries the credential as
//! the first pair, under the reserved key `api_key`.

use vstd::prelude::*;
use vstd::string::StringExecFns;
use crate::percent::{pct_encode, pct_encoded};

verus! {

/// One query pair, still unencoded.
pub struct QueryPair {
    pub key: String,
    pub value: String,
}

impl View for QueryPair {
    type V = (Seq<char>, Seq<char>);

    open spec fn view(&self) -> (Seq<char>, Seq<char>) {
        (self.key@, self.value@)
    }
}

impl QueryPair {
    /// Builds one pair.
    pub fn new(key: String, value: String) -> (r: QueryPair)
        ensures
            r@ == (key@, value@),
    {
        QueryPair { key, value }
    }
}

/// The rendering of one pair: both sides percent-encoded, joined by `=`.
pub open spec fn pair_rendered(p: (Seq<char>, Seq<char>)) -> Seq<char> {
    pct_encoded(p.0) + seq!['='] + pct_encoded(p.1)
}

/// The rendering of a whole query: pairs in order, joined by `&`.
pub open spec fn query_rendered(pairs: Seq<(Seq<char>, Seq<char>)>) -> Seq<char>
    decreases pairs.len(),
{
    if pairs.len() == 0 {
        Seq::empty()
    } else if pairs.len() == 1 {
        pair_rendered(pairs[0])
    } else {
        pair_rendered(pairs[0]) + seq!['&'] + query_rendered(pairs.drop_first())
    }
}

/// The model of a pair vector: the views of its pairs, in order.
pub open spec fn pairs_model(pairs: Seq<QueryPair>) -> Seq<(Seq<char>, Seq<char>)> {
    pairs.map_values(|p: QueryPair| p@)
}

/// The reserved query key that carries the credential.
pub open spec fn api_key_field() -> Seq<char> {
    seq!['a', 'p', 'i', '_', 'k', 'e', 'y']
}

/// The rendering of an authenticated query: the credential pair first,
/// then the parameter bag's pairs in order.
pub open spec fn authorized_query_rendered(
    cred: Seq<char>,
    pairs: Seq<(Seq<char>, Seq<char>)>,
) -> Seq<char> {
    query_rendered(seq![(api_key_field(), cred)] + pairs)
}

/// Renders a query from its pairs.
pub fn render_query(pairs: &Vec<QueryPair>) -> (r: Vec<char>)
    ensures
        r@ == query_rendered(pairs_model(pairs@)),
{
    let r = render_query_from(pairs, 0);
    assert(pairs_model(pairs@).skip(0) =~= pairs_model(pairs@));
    r
}

fn render_query_from(pairs: &Vec<QueryPair>, start: usize) -> (r: Vec<char>)
    requires
        start <= pairs.len(),
    ensures
        r@ == query_rendered(pairs_model(pairs@).skip(start as int)),
    decreases pairs.len() - start,
{
    let mut out: Vec<char> = Vec::new();
    if start == pairs.len() {
        assert(pairs_model(pairs@).skip(start as int) =~= Seq::<(Seq<char>, Seq<char>)>::empty());
        return out;
    }
    let key_chars = crate::text::chars_of(pairs[start].key.as_str());
    let mut enc_key = pct_encode(&key_chars);
    out.append(&mut enc_key);
    out.push('=');
    let value_chars = crate::text::chars_of(pairs[start].value.as_str());
    let mut enc_value = pct_encode(&value_chars);
    out.append(&mut enc_value);
    assert(out@ =~= pair_rendered(pairs_model(pairs@).skip(start as int)[0]));
    if start + 1 == pairs.len() {
        assert(pairs_model(pairs@).skip(start as int).len() == 1);
        return out;
    }
    out.push('&');
    let mut rest = render_query_from(pairs, start + 1);
    out.append(&mut rest);
    assert(pairs_model(pairs@).skip(start as int).drop_first() =~= pairs_model(pairs@).skip(
        start as int + 1,
    ));
    assert(out@ =~= query_rendered(pairs_model(pairs@).skip(start as int)));
    out
}

/// Renders an authenticated query: `api_key` with the credential first,
/// then the given pairs.
pub fn render_authorized_query(api_key: &str, pairs: &Vec<QueryPair>) -> (r: Vec<char>)
    ensures
        r@ == authorized_query_rendered(api_key@, pairs_model(pairs@)),
{
    let mut all: Vec<QueryPair> = Vec::new();
    all.push(QueryPair { key: String::from_str("api_key"), value: api_key.to_owned() });
    let mut i: usize = 0;
    while i < pairs.len()
        invariant
            i <= pairs.len(),
            all@.len() == i + 1,
            all@[0]@ == (("api_key")@, api_key@),
            forall|j: int| 0 <= j < i ==> all@[j + 1] == pairs@[j],
        decreases pairs.len() - i,
    {
        all.push(QueryPair {
            key: pairs[i].key.clone(),
            value: pairs[i].value.clone(),
        });
        i += 1;
    }
    let r = render_query(&all);
    proof {
        reveal_strlit("api_key");
        assert(("api_key")@ =~= api_key_field());
        assert(pairs_model(all@) =~= seq![(api_key_field(), api_key@)] + pairs_model(pairs@));
    }
    r
}

} // verus!
