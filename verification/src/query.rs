//! The query string of a request: decoding it into name and value pairs and
//! resolving the limit that it asks for.

use crate::decimal::{parse_u64, parse_u64_spec};
use actix_web::error::QueryPayloadError;
use actix_web::web::Query;
use vstd::prelude::*;

verus! {

/// The limit that applies when a request names none, or names one that is
/// not an unsigned integer.
pub const DEFAULT_LIMIT: u64 = 100000;

/// The name of the query parameter that carries the limit.
pub open spec fn limit_key() -> Seq<char> {
    "limit"@
}

/// The error with which `actix_web` reports a query string that it could not
/// decode. Nothing is known of its contents here.
#[verifier::external_type_specification]
#[verifier::external_body]
pub struct ExQueryPayloadError(actix_web::error::QueryPayloadError);

/// The name and value pairs that `actix_web::web::Query::from_query` decodes
/// from a query string, in the order in which the string gives them, or
/// `None` where it reports an error.
pub uninterp spec fn decoded_query(query: Seq<char>) -> Option<Seq<(Seq<char>, Seq<char>)>>;

/// Decodes a URL-encoded query string with
/// `actix_web::web::Query::<Vec<(String, String)>>::from_query`, which hands
/// the string to `serde_urlencoded` and takes a sequence of pairs from it.
///
/// Not proved: that the call returns for every query string, and that its
/// outcome is a function of the query string alone, which is all that the
/// contract claims by giving the outcome a name. The decoding itself
/// (splitting at `&` and `=`, percent-decoding, `+` for a space) is left to
/// `actix_web` and not described here.
#[verifier::external_body]
fn decode_query(query: &str) -> (decoded: Result<Vec<(String, String)>, QueryPayloadError>)
    ensures
        (match decoded {
            Ok(pairs) => decoded_query(query@) == Some(pairs.deep_view()),
            Err(_) => decoded_query(query@) is None,
        }),
{
    Query::<Vec<(String, String)>>::from_query(query).map(Query::into_inner)
}

/// The value of the last pair in `pairs` whose name is `key`, if any: a
/// later occurrence of a parameter overrides an earlier one.
pub open spec fn last_value(pairs: Seq<(Seq<char>, Seq<char>)>, key: Seq<char>) -> Option<
    Seq<char>,
>
    decreases pairs.len(),
{
    if pairs.len() == 0 {
        None
    } else if pairs.last().0 == key {
        Some(pairs.last().1)
    } else {
        last_value(pairs.drop_last(), key)
    }
}

/// The limit that a raw parameter value resolves to: the number it denotes,
/// or the default where it is absent or denotes none.
pub open spec fn resolved_limit(raw: Option<Seq<char>>) -> u64 {
    match raw {
        Some(text) => match parse_u64_spec(text) {
            Some(limit) => limit,
            None => DEFAULT_LIMIT,
        },
        None => DEFAULT_LIMIT,
    }
}

/// The limit that decoded pairs ask for.
pub open spec fn pairs_limit(pairs: Seq<(Seq<char>, Seq<char>)>) -> u64 {
    resolved_limit(last_value(pairs, limit_key()))
}

/// The limit that a query string asks for. A query string that cannot be
/// decoded asks for the default.
pub open spec fn query_limit(query: Seq<char>) -> u64 {
    match decoded_query(query) {
        Some(pairs) => pairs_limit(pairs),
        None => DEFAULT_LIMIT,
    }
}

/// A request that names no limit asks for the default.
pub proof fn lemma_absent_limit_is_default(pairs: Seq<(Seq<char>, Seq<char>)>)
    requires
        forall|i: int| 0 <= i < pairs.len() ==> (#[trigger] pairs[i]).0 != limit_key(),
    ensures
        last_value(pairs, limit_key()) is None,
        pairs_limit(pairs) == DEFAULT_LIMIT,
    decreases pairs.len(),
{
    if pairs.len() > 0 {
        lemma_absent_limit_is_default(pairs.drop_last());
    }
}

/// A request whose limit is not an unsigned integer asks for the default.
pub proof fn lemma_malformed_limit_is_default(pairs: Seq<(Seq<char>, Seq<char>)>)
    requires
        last_value(pairs, limit_key()) matches Some(text) && parse_u64_spec(text) is None,
    ensures
        pairs_limit(pairs) == DEFAULT_LIMIT,
{
}

/// A request whose limit is an unsigned integer asks for that limit.
pub proof fn lemma_wellformed_limit_is_kept(pairs: Seq<(Seq<char>, Seq<char>)>, limit: u64)
    requires
        last_value(pairs, limit_key()) matches Some(text) && parse_u64_spec(text) == Some(limit),
    ensures
        pairs_limit(pairs) == limit,
{
}

/// Finds the value of the last pair named `key`.
pub fn find_last<'a>(pairs: &'a Vec<(String, String)>, key: &str) -> (found: Option<&'a str>)
    ensures
        found.deep_view() == last_value(pairs.deep_view(), key@),
{
    let wanted: String = key.to_owned();
    let ghost all = pairs.deep_view();
    let mut i: usize = pairs.len();
    assert(all.take(i as int) =~= all);
    while i > 0
        invariant
            i <= pairs.len(),
            all == pairs.deep_view(),
            wanted@ == key@,
            last_value(all, key@) == last_value(all.take(i as int), key@),
        decreases i,
    {
        i -= 1;
        assert(all.take(i + 1).drop_last() =~= all.take(i as int));
        assert(all.take(i + 1).last() == pairs[i as int].deep_view());
        if pairs[i].0 == wanted {
            return Some(pairs[i].1.as_str());
        }
    }
    None
}

/// Resolves the limit from the raw value of the limit parameter. A value
/// that is absent or malformed is no error: it resolves to the default.
pub fn parse_limit(raw: Option<&str>) -> (limit: u64)
    ensures
        limit == resolved_limit(raw.deep_view()),
        raw is None ==> limit == DEFAULT_LIMIT,
{
    match raw {
        Some(text) => match parse_u64(text) {
            Some(limit) => limit,
            None => DEFAULT_LIMIT,
        },
        None => DEFAULT_LIMIT,
    }
}

/// Resolves the limit from the decoded pairs of a query string.
pub fn limit_from_pairs(pairs: &Vec<(String, String)>) -> (limit: u64)
    ensures
        limit == pairs_limit(pairs.deep_view()),
{
    parse_limit(find_last(pairs, "limit"))
}

/// Resolves the limit from the query string of a request.
pub fn limit_from_query(query: &str) -> (limit: u64)
    ensures
        limit == query_limit(query@),
{
    match decode_query(query) {
        Ok(pairs) => limit_from_pairs(&pairs),
        Err(_) => DEFAULT_LIMIT,
    }
}

} // verus!
