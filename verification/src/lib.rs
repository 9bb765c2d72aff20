//! Prime counting by trial division, and the request handling of a small
//! demonstration service built around it.
//!
//! The service answers two paths. The root path answers with a fixed
//! greeting. The prime path resolves a limit from the query string, counts
//! the primes up to it, and reports the count with the time it took.

pub mod clock;
pub mod decimal;
pub mod handlers;
pub mod primes;
pub mod query;

pub use decimal::{append_decimal, parse_u64};
pub use handlers::{bind_address, format_seconds, hello, prime, prime_body, Response, STATUS_OK};
pub use primes::{count_primes, is_prime};
pub use query::{find_last, limit_from_pairs, limit_from_query, parse_limit, DEFAULT_LIMIT};
