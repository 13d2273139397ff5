//! What this library takes on trust from `jsonwebtoken` and `serde_json`: the
//! reading of a token's header, the names of the signing algorithms, the
//! decoding of a token against one key, and the members of the decoded
//! claims. Nothing here is proved; each contract says what the named function
//! of the outside crate does.

use std::str::FromStr;
use vstd::prelude::*;

verus! {

/// A signing algorithm of `jsonwebtoken`.
#[verifier::external_type_specification]
#[verifier::external_body]
pub struct ExAlgorithm(jsonwebtoken::Algorithm);

/// A JSON value of `serde_json`.
#[verifier::external_type_specification]
#[verifier::external_body]
pub struct ExValue(serde_json::Value);

/// The key id that `jsonwebtoken::decode_header` finds in the header of
/// `token`: none where the token has not exactly three parts between dots,
/// where its first part is no base64url of a JSON header, or where that
/// header names no key.
pub uninterp spec fn header_key_id(token: Seq<char>) -> Option<Seq<char>>;

/// The algorithm that `jsonwebtoken::decode_header` finds in the header of
/// `token`, by its name: none where the header cannot be read.
pub uninterp spec fn header_algorithm(token: Seq<char>) -> Option<Seq<char>>;

/// The name of an algorithm: the one text for which
/// `jsonwebtoken::Algorithm::from_str` returns it.
pub uninterp spec fn algorithm_name(algorithm: jsonwebtoken::Algorithm) -> Seq<char>;

/// Whether `jsonwebtoken::decode` finds the signature of `token` valid under
/// the RSA key of the given modulus and exponent, both in base64url, by the
/// algorithm that the token's header names: what `jsonwebtoken::crypto::verify`
/// returns for the last part of the token as signature and what stands
/// before its last dot as message.
pub uninterp spec fn signature_is_valid(
    token: Seq<char>,
    modulus: Seq<char>,
    exponent: Seq<char>,
) -> bool;

/// The members of the claims that `jsonwebtoken::decode` returns for `token`
/// whenever it returns any: those of the JSON object that the second part of
/// the token is the base64url of. First the members whose values are strings,
/// then those whose values are integers that fit in 64 signed bits, each
/// under its name.
pub uninterp spec fn payload_members(token: Seq<char>) -> (
    Map<Seq<char>, Seq<char>>,
    Map<Seq<char>, i64>,
);

/// The members of a JSON object whose values are strings, each under its
/// name; empty for a value that is no object.
pub uninterp spec fn text_members(value: serde_json::Value) -> Map<Seq<char>, Seq<char>>;

/// The members of a JSON object whose values are integers that fit in 64
/// signed bits, each under its name; empty for a value that is no object.
pub uninterp spec fn integer_members(value: serde_json::Value) -> Map<Seq<char>, i64>;

/// Whether `name` is one of the algorithm names that
/// `jsonwebtoken::Algorithm::from_str` knows.
pub open spec fn is_algorithm_name(name: Seq<char>) -> bool {
    ||| name == "HS256"@
    ||| name == "HS384"@
    ||| name == "HS512"@
    ||| name == "ES256"@
    ||| name == "ES384"@
    ||| name == "RS256"@
    ||| name == "RS384"@
    ||| name == "RS512"@
    ||| name == "PS256"@
    ||| name == "PS384"@
    ||| name == "PS512"@
}

/// Whether `name` is the name of one of the algorithms that sign with an RSA
/// key; `jsonwebtoken::decode` admits no other algorithm with an RSA key.
pub open spec fn is_rsa_algorithm_name(name: Seq<char>) -> bool {
    ||| name == "RS256"@
    ||| name == "RS384"@
    ||| name == "RS512"@
    ||| name == "PS256"@
    ||| name == "PS384"@
    ||| name == "PS512"@
}

/// Calls `jsonwebtoken::decode_header` and hands out the key id of the header
/// it returns. The call reads nothing but the token, so its result has a
/// name, `header_key_id`; no signature is checked here.
#[verifier::external_body]
pub(crate) fn decode_key_id(token: &str) -> (key_id: Option<String>)
    ensures
        match key_id {
            Some(id) => header_key_id(token@) == Some(id@),
            None => header_key_id(token@) is None,
        },
{
    jsonwebtoken::decode_header(token).ok().and_then(|header| header.kid)
}

/// Calls `jsonwebtoken::Algorithm::from_str`, which knows exactly the eleven
/// names of `is_algorithm_name`, returns for each the algorithm of that name,
/// and fails on every other text.
#[verifier::external_body]
pub(crate) fn algorithm_named(name: &str) -> (algorithm: Option<jsonwebtoken::Algorithm>)
    ensures
        algorithm is Some <==> is_algorithm_name(name@),
        algorithm matches Some(found) ==> algorithm_name(found) == name@,
{
    jsonwebtoken::Algorithm::from_str(name).ok()
}

/// Calls `jsonwebtoken::decode` on `token`, with the RSA key of the given
/// modulus and exponent and with a validation that admits `algorithm` alone,
/// `audience` as the only audience and `issuer` as the issuer, and hands out
/// the claims. The call checks the signature and compares the expiry with the
/// clock, so the same token may pass now and fail later, and whether claims
/// come back has no name. Whenever they do, `algorithm` is one that signs
/// with an RSA key and is the one that the token's header declares, the crate
/// has found the signature valid under that key, the claims are the payload
/// of the token, which the token alone decides, and the crate's validation
/// has checked them: the issuer is a string equal to `issuer`, and the
/// audience, where it is a string, equals `audience`. The call panics where
/// the machine's clock stands before 1970.
#[verifier::external_body]
pub(crate) fn decode_claims(
    token: &str,
    modulus: &str,
    exponent: &str,
    algorithm: jsonwebtoken::Algorithm,
    audience: &str,
    issuer: &str,
) -> (claims: Option<serde_json::Value>)
    ensures
        claims matches Some(value) ==> {
            &&& is_rsa_algorithm_name(algorithm_name(algorithm))
            &&& header_algorithm(token@) == Some(algorithm_name(algorithm))
            &&& signature_is_valid(token@, modulus@, exponent@)
            &&& (text_members(value), integer_members(value)) == payload_members(token@)
            &&& text_members(value).contains_key("iss"@)
            &&& text_members(value)["iss"@] == issuer@
            &&& text_members(value).contains_key("aud"@) ==> text_members(value)["aud"@]
                == audience@
        },
{
    let mut validation = jsonwebtoken::Validation::new(algorithm);
    validation.set_audience(&[audience]);
    validation.iss = Some(issuer.to_string());
    let key = jsonwebtoken::DecodingKey::from_rsa_components(modulus, exponent);
    jsonwebtoken::decode::<serde_json::Value>(token, &key, &validation).ok().map(|data| data.claims)
}

/// Calls `serde_json::Value::get` and `as_str`: the string under `name` in a
/// JSON object, where it has one.
#[verifier::external_body]
pub(crate) fn text_member(value: &serde_json::Value, name: &str) -> (text: Option<String>)
    ensures
        match text {
            Some(found) => text_members(*value).contains_key(name@) && text_members(*value)[name@]
                == found@,
            None => !text_members(*value).contains_key(name@),
        },
{
    value.get(name).and_then(serde_json::Value::as_str).map(str::to_owned)
}

/// Calls `serde_json::Value::get` and `as_i64`: the integer under `name` in a
/// JSON object, where it has one that fits in 64 signed bits.
#[verifier::external_body]
pub(crate) fn integer_member(value: &serde_json::Value, name: &str) -> (number: Option<i64>)
    ensures
        match number {
            Some(found) => integer_members(*value).contains_key(name@) && integer_members(
                *value,
            )[name@] == found,
            None => !integer_members(*value).contains_key(name@),
        },
{
    value.get(name).and_then(serde_json::Value::as_i64)
}

} // verus!
