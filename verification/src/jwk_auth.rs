//! The decisions of the service that owns a verifier: which issuer and
//! audience a project's tokens must carry, what the first reply of the
//! provider means for the service, and what each later reply means for the
//! key set and for the time of the next request. Requests, waiting and the
//! sharing of the verifier between threads are left to the caller.

use crate::jwk::{Jwks, KeyFetchError};
use crate::jwk_verifier::{key_map, JwkVerifier};
use vstd::prelude::*;
use vstd::string::StringExecFns;

verus! {

/// What the issuer of a project's tokens starts with.
pub const ISSUER_URL: &'static str = "https://securetoken.google.com/";

/// Where the provider publishes its keys.
pub const DEFAULT_PUBKEY_URL: &'static str =
    "https://www.googleapis.com/service_accounts/v1/jwk/securetoken@system.gserviceaccount.com";

/// The seconds to wait after a request that brought no keys.
pub const RETRY_DELAY: u64 = 60;

/// The issuer of the tokens of a project.
pub open spec fn issuer_of(project_id: Seq<char>) -> Seq<char> {
    ISSUER_URL@ + project_id
}

/// Writes the issuer of the tokens of a project.
pub fn issuer(project_id: &str) -> (issuer: String)
    ensures
        issuer@ == issuer_of(project_id@),
{
    String::from_str(ISSUER_URL).concat(project_id)
}

/// What the first reply of the provider means: with keys, the verifier that
/// the service starts with, whose audience is the project and whose issuer is
/// the project's; without keys, the error, and no service.
pub fn first_verifier(project_id: String, fetched: Result<Jwks, KeyFetchError>) -> (r: Result<
    JwkVerifier,
    KeyFetchError,
>)
    ensures
        match fetched {
            Ok(jwks) => r matches Ok(verifier) && verifier.key_set() == key_map(jwks.keys@)
                && verifier.config().audience == project_id && verifier.config().issuer@
                == issuer_of(project_id@),
            Err(error) => r matches Err(same) && same == error,
        },
{
    match fetched {
        Ok(jwks) => {
            let issuer = issuer(project_id.as_str());
            Ok(JwkVerifier::new(jwks.keys, project_id, issuer))
        },
        Err(error) => Err(error),
    }
}

/// The seconds to wait after a reply before the next request.
pub open spec fn delay_after(fetched: Result<Jwks, KeyFetchError>) -> u64 {
    match fetched {
        Ok(jwks) => jwks.validity,
        Err(_) => RETRY_DELAY,
    }
}

/// One turn of the refresh: a reply with keys replaces the key set, whole,
/// and the next request is due when their lifetime is over; a failed request
/// leaves the verifier as it is, and the next one is due after `RETRY_DELAY`
/// seconds. Returns the seconds to wait.
pub fn refresh(verifier: &mut JwkVerifier, fetched: Result<Jwks, KeyFetchError>) -> (delay: u64)
    ensures
        delay == delay_after(fetched),
        final(verifier).config() == old(verifier).config(),
        match fetched {
            Ok(jwks) => final(verifier).key_set() == key_map(jwks.keys@),
            Err(_) => *final(verifier) == *old(verifier),
        },
{
    match fetched {
        Ok(jwks) => {
            let delay = jwks.validity;
            verifier.set_keys(jwks.keys);
            delay
        },
        Err(_) => RETRY_DELAY,
    }
}

} // verus!
