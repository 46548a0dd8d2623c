//! The authenticated URL builder: joins a base URL with path segments and
//! appends the flattened parameter pairs behind the credential pair.

use vstd::prelude::*;
use vstd::string::StringExecFns;
use crate::baseurl::{base_rendered, seg_ok, BaseUrl, BaseUrlModel};
use crate::error::{AriError, UrlFault};
use crate::query::{authorized_query_rendered, pairs_model, render_authorized_query, QueryPair};
use crate::text::string_of;

verus! {

/// The credential and URL construction rules.
pub struct Authorization;

/// What the authenticated URL builder produces on success: the joined base,
/// a `?`, and the credential-led query.
pub open spec fn built_url(
    base: BaseUrlModel,
    segments: Seq<Seq<char>>,
    api_key: Seq<char>,
    pairs: Seq<(Seq<char>, Seq<char>)>,
) -> Seq<char> {
    base_rendered(BaseUrlModel { path: base.path + segments, ..base }) + seq!['?']
        + authorized_query_rendered(api_key, pairs)
}

impl Authorization {
    /// The credential: the username and password joined by `:`, carried
    /// verbatim in the reserved query field.
    pub fn api_key(username: &str, password: &str) -> (r: String)
        ensures
            r@ == username@ + seq![':'] + password@,
    {
        let mut s = username.to_owned();
        s.append(":");
        s.append(password);
        proof {
            reveal_strlit(":");
            assert((":")@ =~= seq![':']);
        }
        s
    }

    /// Builds a fully qualified authenticated URL: the base joined with the
    /// segments in order, then a query holding the credential under
    /// `api_key` followed by the parameter pairs in order.
    ///
    /// Fails exactly when some segment is empty or holds a character that no
    /// segment may hold; that is a configuration error.
    pub fn build_url(
        url: &BaseUrl,
        path: &Vec<String>,
        api_key: &str,
        params: &Vec<QueryPair>,
    ) -> (r: Result<String, AriError>)
        ensures
            match r {
                Ok(u) => (forall|k: int|
                    0 <= k < path.deep_view().len() ==> seg_ok(path.deep_view()[k])) && u@
                    == built_url(url@, path.deep_view(), api_key@, pairs_model(params@)),
                Err(e) => match e {
                    AriError::UrlParse(f) => f == UrlFault::BadSegment && exists|k: int|
                        0 <= k < path.deep_view().len() && !seg_ok(path.deep_view()[k]),
                    _ => false,
                },
            },
    {
        match url.join(path) {
            Ok(joined) => {
                let mut out = joined.render_chars();
                out.push('?');
                let mut q = render_authorized_query(api_key, params);
                out.append(&mut q);
                assert(out@ =~= built_url(url@, path.deep_view(), api_key@, pairs_model(params@)));
                Ok(string_of(out))
            },
            Err(e) => Err(e),
        }
    }
}

} // verus!
