//! The provider's published keys, and what a reply to the request for them
//! amounts to: a list of keys with the time for which it may be kept, or the
//! reason why there is none.

use crate::header_parser::{get_max_age, max_age_of};
use vstd::prelude::*;

verus! {

/// An error of the HTTP client.
#[verifier::external_type_specification]
#[verifier::external_body]
pub struct ExReqwestError(reqwest::Error);

/// The seconds for which keys are kept where the reply grants no lifetime.
pub const DEFAULT_TIMEOUT: u64 = 60;

/// The body of the provider's reply.
#[derive(Debug, Clone)]
pub struct KeyResponse {
    pub keys: Vec<Jwk>,
}

/// One public key of the provider.
#[derive(Debug, Eq, PartialEq, Clone)]
pub struct Jwk {
    /// The public exponent, in base64url.
    pub e: String,
    /// The name of the signing algorithm.
    pub alg: String,
    /// The key type.
    pub kty: String,
    /// The identifier by which a token's header names the key.
    pub kid: String,
    /// The modulus, in base64url.
    pub n: String,
    /// What the key is for.
    pub key_use: String,
}

/// The keys of one reply, with the seconds for which they may be kept.
#[derive(Debug, PartialEq, Clone)]
pub struct Jwks {
    pub keys: Vec<Jwk>,
    pub validity: u64,
}

/// Where the keys are asked for.
#[derive(Debug, PartialEq)]
pub struct JwkFetcher {
    pub url: String,
}

/// Why a request brought no keys.
#[derive(Debug)]
pub enum KeyFetchError {
    /// The request itself failed.
    RequestError(reqwest::Error),
    /// A reply came, and its body is no list of keys.
    ReponseBodyError(reqwest::Error),
}

/// What came back for one request, once the client is done with it.
pub struct Reply {
    /// The bytes of the value of the `Cache-Control` header, where the reply
    /// has one.
    pub cache_control: Option<Vec<u8>>,
    /// The body read as a list of keys, or why it could not be.
    pub body: Result<KeyResponse, reqwest::Error>,
}

/// The seconds for which the keys of a reply are kept: what its
/// `Cache-Control` header grants, and `DEFAULT_TIMEOUT` where it grants
/// nothing.
pub open spec fn validity_of(cache_control: Option<Seq<u8>>) -> u64 {
    match max_age_of(cache_control) {
        Ok(seconds) => seconds,
        Err(_) => DEFAULT_TIMEOUT,
    }
}

/// The bytes that an optional header value holds.
pub open spec fn header_bytes(cache_control: Option<Vec<u8>>) -> Option<Seq<u8>> {
    match cache_control {
        Some(value) => Some(value@),
        None => None,
    }
}

/// What one request amounts to.
pub open spec fn fetched(outcome: Result<Reply, reqwest::Error>) -> Result<Jwks, KeyFetchError> {
    match outcome {
        Err(error) => Err(KeyFetchError::RequestError(error)),
        Ok(reply) => match reply.body {
            Err(error) => Err(KeyFetchError::ReponseBodyError(error)),
            Ok(body) => Ok(
                Jwks { keys: body.keys, validity: validity_of(header_bytes(reply.cache_control)) },
            ),
        },
    }
}

impl JwkFetcher {
    /// A fetcher that asks at `url`.
    pub fn new(url: String) -> (fetcher: JwkFetcher)
        ensures
            fetcher.url == url,
    {
        JwkFetcher { url }
    }

    /// The seconds for which the keys of a reply are kept, by the bytes of
    /// its `Cache-Control` header: a header that is missing or grants nothing
    /// never stands in the way of the keys.
    pub fn validity(cache_control: Option<&[u8]>) -> (seconds: u64)
        ensures
            seconds == validity_of(
                match cache_control {
                    Some(value) => Some(value@),
                    None => None,
                },
            ),
    {
        match get_max_age(cache_control) {
            Ok(seconds) => seconds,
            Err(_) => DEFAULT_TIMEOUT,
        }
    }

    /// Turns what came back for one request into the keys and their lifetime,
    /// or into the error that tells a failed request from a body that is no
    /// list of keys.
    pub fn keys_from(outcome: Result<Reply, reqwest::Error>) -> (r: Result<Jwks, KeyFetchError>)
        ensures
            r == fetched(outcome),
    {
        match outcome {
            Err(error) => Err(KeyFetchError::RequestError(error)),
            Ok(reply) => {
                let validity = match &reply.cache_control {
                    Some(value) => JwkFetcher::validity(Some(value.as_slice())),
                    None => JwkFetcher::validity(None),
                };
                match reply.body {
                    Err(error) => Err(KeyFetchError::ReponseBodyError(error)),
                    Ok(body) => Ok(Jwks { keys: body.keys, validity }),
                }
            },
        }
    }
}

/// Whatever the `Cache-Control` header of a reply fails by, the keys are kept
/// for `DEFAULT_TIMEOUT` seconds: sixty.
pub proof fn lemma_default_validity(cache_control: Option<Seq<u8>>)
    requires
        max_age_of(cache_control) is Err,
    ensures
        validity_of(cache_control) == 60,
{
}

} // verus!
