//! The client through which a repository's caller reaches the store.

use vstd::prelude::*;

verus! {

/// The redis crate's handle on a store: an address that was checked, not yet
/// a connection.
#[verifier::external_type_specification]
#[verifier::external_body]
pub struct ExClient(redis::Client);

/// The redis crate's error.
#[verifier::external_type_specification]
#[verifier::external_body]
pub struct ExRedisError(redis::RedisError);

/// Whether the redis crate takes `url` as the address of a store.
pub uninterp spec fn redis_url_accepted(url: Seq<char>) -> bool;

/// Why a repository could not be set up.
#[derive(Debug, Clone, Copy, PartialEq, Eq, Structural)]
pub enum ConnectionError {
    /// The address is none that the redis crate takes.
    InvalidUrl,
}

/// Makes a client for the store at `url` with `redis::Client::open`, which
/// checks the address and connects to nothing.
///
/// Trusted: the contract only names the verdict. Whether the redis crate takes
/// an address depends on the address alone, for the crate as it is built: the
/// address must parse as a URL with one of the schemes `redis`, `rediss`,
/// `redis+unix` and `unix`, and what it asks of the host, the database number
/// and the credentials depends on the scheme.
#[verifier::external_body]
pub(crate) fn open_client(url: &str) -> (r: Result<redis::Client, redis::RedisError>)
    ensures
        r is Ok == redis_url_accepted(url@),
{
    redis::Client::open(url)
}

/// The client that `opened` holds, or the error that stands for a refused
/// address.
pub fn client_of(opened: Result<redis::Client, redis::RedisError>) -> (r: Result<
    redis::Client,
    ConnectionError,
>)
    ensures
        r is Ok == opened is Ok,
        r matches Ok(c) ==> opened == Ok::<redis::Client, redis::RedisError>(c),
        r matches Err(e) ==> e == ConnectionError::InvalidUrl,
{
    match opened {
        Ok(client) => Ok(client),
        Err(_) => Err(ConnectionError::InvalidUrl),
    }
}

} // verus!
