//! The two request handlers of the service and the texts they answer with.

use crate::decimal::{
    all_digits, append_decimal, decimal_text, digit_char, is_digit, lemma_decimal_text_is_digits,
};
use crate::primes::{count_primes, count_primes_spec};
use crate::query::{limit_from_query, query_limit};
use std::time::Instant;
use vstd::prelude::*;
use vstd::string::StringExecFns;

verus! {

/// The status code of a successful answer.
pub const STATUS_OK: u16 = 200;

/// The address that the service listens on: every interface, at the
/// configured port, or at port 8080 where none is configured.
pub open spec fn listen_address(port: Option<Seq<char>>) -> Seq<char> {
    "0.0.0.0:"@ + match port {
        Some(configured) => configured,
        None => "8080"@,
    }
}

/// What a handler answers: a status code and a text body.
#[derive(Debug, Clone, PartialEq, Eq)]
pub struct Response {
    pub status: u16,
    pub body: String,
}

/// The body that the root path answers with.
pub open spec fn greeting() -> Seq<char> {
    "Hello from Kubernetes!"@
}

/// An elapsed time in hundredths of a second, rounded to the nearest
/// hundredth, a half upward.
pub open spec fn hundredths(nanos: nat) -> nat {
    (nanos + 5_000_000) / 10_000_000
}

/// An elapsed time of `nanos` nanoseconds written in seconds with two
/// decimal places.
pub open spec fn seconds_text(nanos: nat) -> Seq<char> {
    let h = hundredths(nanos);
    decimal_text(h / 100) + seq!['.', digit_char(h % 100 / 10), digit_char(h % 10)]
}

/// The body that reports `count` primes up to `limit`, found in `nanos`
/// nanoseconds.
pub open spec fn prime_body_spec(limit: nat, count: nat, nanos: nat) -> Seq<char> {
    "Number of primes up to "@ + decimal_text(limit) + ": "@ + decimal_text(count)
        + ". Calculated in "@ + seconds_text(nanos) + " seconds."@
}

/// The body that answers the query string `query` when the count took
/// `nanos` nanoseconds.
pub open spec fn prime_answer(query: Seq<char>, nanos: nat) -> Seq<char> {
    let limit = query_limit(query) as nat;
    prime_body_spec(limit, count_primes_spec(limit), nanos)
}

/// The reported time is an unsigned decimal number with exactly two decimal
/// places: digits, a point, and two more digits. It carries no sign, so it
/// is never negative.
pub proof fn lemma_seconds_text_has_two_decimals(nanos: nat)
    ensures
        ({
            let text = seconds_text(nanos);
            let point = text.len() - 3;
            &&& text.len() >= 4
            &&& text[point] == '.'
            &&& is_digit(text[point + 1])
            &&& is_digit(text[point + 2])
            &&& all_digits(text.take(point))
        }),
{
    let h = hundredths(nanos);
    lemma_decimal_text_is_digits(h / 100);
    let text = seconds_text(nanos);
    assert(text.take(text.len() - 3) =~= decimal_text(h / 100));
}

/// Answers a request for the root path with the fixed greeting. The request
/// itself plays no part in the answer.
pub fn hello() -> (response: Response)
    ensures
        response.status == STATUS_OK,
        response.body@ == greeting(),
{
    Response { status: STATUS_OK, body: String::from_str("Hello from Kubernetes!") }
}

/// Writes an elapsed time of `nanos` nanoseconds in seconds, with two decimal
/// places.
pub fn format_seconds(nanos: u128) -> (text: String)
    ensures
        text@ == seconds_text(nanos as nat),
{
    let carry: u128 = if nanos % 10_000_000 >= 5_000_000 {
        1
    } else {
        0
    };
    let h: u128 = nanos / 10_000_000 + carry;
    assert(h == hundredths(nanos as nat));
    let mut text = String::new();
    append_decimal(&mut text, h / 100);
    text.append(".");
    append_decimal(&mut text, h % 100 / 10);
    append_decimal(&mut text, h % 10);
    proof {
        reveal_strlit(".");
        assert("."@ =~= seq!['.']);
        assert(text@ =~= seconds_text(nanos as nat));
    }
    text
}

/// Writes the body that reports `count` primes up to `limit`, found in
/// `elapsed_nanos` nanoseconds.
pub fn prime_body(limit: u64, count: u64, elapsed_nanos: u128) -> (body: String)
    ensures
        body@ == prime_body_spec(limit as nat, count as nat, elapsed_nanos as nat),
{
    let mut body = String::from_str("Number of primes up to ");
    append_decimal(&mut body, limit as u128);
    body.append(": ");
    append_decimal(&mut body, count as u128);
    body.append(". Calculated in ");
    let seconds = format_seconds(elapsed_nanos);
    body.append(seconds.as_str());
    body.append(" seconds.");
    body
}

/// Answers a request for the prime count: resolves the limit from the query
/// string, counts the primes up to it, and reports the count together with
/// the time the counting took. Whatever the query string holds, the answer is
/// a success.
pub fn prime(query: &str) -> (response: Response)
    ensures
        response.status == STATUS_OK,
        exists|nanos: nat| response.body@ == #[trigger] prime_answer(query@, nanos),
{
    let limit = limit_from_query(query);
    let start = Instant::now();
    let count = count_primes(limit);
    let elapsed = Instant::now().saturating_duration_since(start);
    let nanos: u128 = elapsed.as_nanos();
    let body = prime_body(limit, count, nanos);
    assert(body@ == prime_answer(query@, nanos as nat));
    Response { status: STATUS_OK, body }
}

/// Gives the address to listen on for the port that the configuration
/// names, if it names one.
pub fn bind_address(port: Option<&str>) -> (address: String)
    ensures
        address@ == listen_address(port.deep_view()),
{
    let mut address = String::from_str("0.0.0.0:");
    match port {
        Some(p) => address.append(p),
        None => address.append("8080"),
    }
    address
}

} // verus!
