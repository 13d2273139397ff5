//! The lifetime that a `Cache-Control` header grants, with one error for
//! each way in which it grants none.

use crate::directive::{
    directive_value, find_max_age, header_text, join, lemma_max_age_absent, lemma_max_age_is_read,
    lemma_max_age_of_joined, max_age, max_age_name, names_max_age, read_header_text, written,
    MaxAge,
};
use crate::text::{all_space, chars_of, decimal, eq_ignore_ascii_case, lacks, parse_u64};
use vstd::prelude::*;

verus! {

/// Why a response grants no lifetime.
#[derive(Clone, Copy, Debug, PartialEq, Eq)]
pub enum MaxAgeParseError {
    /// The header holds no `max-age` directive.
    NoMaxAgeSpecified,
    /// The response has no `Cache-Control` header whose value is text.
    NoCacheControlHeader,
    /// The `max-age` directive has no value: no `=`, or nothing after it.
    MaxAgeValueEmpty,
    /// The value of the `max-age` directive is no number of seconds.
    NonNumericMaxAge,
}

/// The seconds that a finding grants, or the error that stands for it.
pub open spec fn granted(found: MaxAge) -> Result<u64, MaxAgeParseError> {
    match found {
        MaxAge::Seconds(seconds) => Ok(seconds),
        MaxAge::Absent => Err(MaxAgeParseError::NoMaxAgeSpecified),
        MaxAge::Bare => Err(MaxAgeParseError::MaxAgeValueEmpty),
        MaxAge::Empty => Err(MaxAgeParseError::MaxAgeValueEmpty),
        MaxAge::Malformed => Err(MaxAgeParseError::NonNumericMaxAge),
    }
}

/// The seconds that the text of a `Cache-Control` header grants.
pub open spec fn parsed(value: Seq<char>) -> Result<u64, MaxAgeParseError> {
    granted(max_age(value))
}

/// The seconds that the bytes of a `Cache-Control` header grant.
pub open spec fn parsed_bytes(value: Seq<u8>) -> Result<u64, MaxAgeParseError> {
    match header_text(value) {
        Some(text) => parsed(text),
        None => Err(MaxAgeParseError::NoCacheControlHeader),
    }
}

/// The seconds that a response grants, by the bytes of its `Cache-Control`
/// header, where it has one.
pub open spec fn max_age_of(cache_control: Option<Seq<u8>>) -> Result<u64, MaxAgeParseError> {
    match cache_control {
        Some(value) => parsed_bytes(value),
        None => Err(MaxAgeParseError::NoCacheControlHeader),
    }
}

fn grant(found: MaxAge) -> (r: Result<u64, MaxAgeParseError>)
    ensures
        r == granted(found),
{
    match found {
        MaxAge::Seconds(seconds) => Ok(seconds),
        MaxAge::Absent => Err(MaxAgeParseError::NoMaxAgeSpecified),
        MaxAge::Bare => Err(MaxAgeParseError::MaxAgeValueEmpty),
        MaxAge::Empty => Err(MaxAgeParseError::MaxAgeValueEmpty),
        MaxAge::Malformed => Err(MaxAgeParseError::NonNumericMaxAge),
    }
}

/// Reads the lifetime, in seconds, from the `Cache-Control` header of a
/// response; `cache_control` holds the bytes of the header's value, or
/// nothing where the response has no such header.
pub fn get_max_age(cache_control: Option<&[u8]>) -> (r: Result<u64, MaxAgeParseError>)
    ensures
        r == max_age_of(
            match cache_control {
                Some(value) => Some(value@),
                None => None,
            },
        ),
{
    match cache_control {
        Some(value) => parse_cache_control_value(value),
        None => Err(MaxAgeParseError::NoCacheControlHeader),
    }
}

/// Reads the lifetime, in seconds, from the bytes of a header value.
pub fn parse_cache_control_value(value: &[u8]) -> (r: Result<u64, MaxAgeParseError>)
    ensures
        r == parsed_bytes(value@),
{
    match read_header_text(value) {
        Some(chars) => grant(find_max_age(chars.as_slice())),
        None => Err(MaxAgeParseError::NoCacheControlHeader),
    }
}

/// Reads the lifetime, in seconds, from the text of a header value.
pub fn _parse_cache_control_value(value: &str) -> (r: Result<u64, MaxAgeParseError>)
    ensures
        r == parsed(value@),
{
    let chars = chars_of(value);
    grant(find_max_age(chars.as_slice()))
}

/// A header that holds the directive `max-age=N`, with `N` the decimal
/// numeral of a number of seconds that fits in 64 bits, grants exactly that
/// number of seconds, whatever directives stand before and after it, so long
/// as none before it is named `max-age` too.
pub proof fn lemma_max_age_is_granted(
    before: Seq<Seq<char>>,
    name: Seq<char>,
    seconds: nat,
    pad: (Seq<char>, Seq<char>, Seq<char>, Seq<char>),
    after: Seq<Seq<char>>,
)
    requires
        forall|i: int| 0 <= i < before.len() ==> lacks(#[trigger] before[i], ','),
        forall|i: int| 0 <= i < before.len() ==> !names_max_age(#[trigger] before[i]),
        forall|i: int| 0 <= i < after.len() ==> lacks(#[trigger] after[i], ','),
        eq_ignore_ascii_case(name, max_age_name()),
        seconds <= u64::MAX,
        all_space(pad.0),
        all_space(pad.1),
        all_space(pad.2),
        all_space(pad.3),
    ensures
        parsed(join(before + seq![written(name, decimal(seconds), pad)] + after, ',')) == Ok::<
            u64,
            MaxAgeParseError,
        >(seconds as u64),
{
    lemma_max_age_is_read(before, name, seconds, pad, after);
}

/// A header none of whose directives is named `max-age` grants nothing, for
/// want of the directive.
pub proof fn lemma_no_max_age_is_refused(directives: Seq<Seq<char>>)
    requires
        directives.len() > 0,
        forall|i: int| 0 <= i < directives.len() ==> lacks(#[trigger] directives[i], ','),
        forall|i: int| 0 <= i < directives.len() ==> !names_max_age(#[trigger] directives[i]),
    ensures
        parsed(join(directives, ',')) == Err::<u64, MaxAgeParseError>(
            MaxAgeParseError::NoMaxAgeSpecified,
        ),
{
    lemma_max_age_absent(directives);
}

/// A header whose first `max-age` directive has no `=`, or nothing but
/// whitespace after it, grants nothing, for want of a value.
pub proof fn lemma_empty_max_age_is_refused(directives: Seq<Seq<char>>, at: int)
    requires
        0 <= at < directives.len(),
        forall|i: int| 0 <= i < directives.len() ==> lacks(#[trigger] directives[i], ','),
        forall|i: int| 0 <= i < at ==> !names_max_age(#[trigger] directives[i]),
        names_max_age(directives[at]),
        match directive_value(directives[at]) {
            Some(text) => text.len() == 0,
            None => true,
        },
    ensures
        parsed(join(directives, ',')) == Err::<u64, MaxAgeParseError>(
            MaxAgeParseError::MaxAgeValueEmpty,
        ),
{
    lemma_max_age_of_joined(directives, at);
}

/// A header whose first `max-age` directive has a value that is not empty
/// and is no 64-bit number grants nothing, for want of a number.
pub proof fn lemma_non_numeric_max_age_is_refused(directives: Seq<Seq<char>>, at: int)
    requires
        0 <= at < directives.len(),
        forall|i: int| 0 <= i < directives.len() ==> lacks(#[trigger] directives[i], ','),
        forall|i: int| 0 <= i < at ==> !names_max_age(#[trigger] directives[i]),
        names_max_age(directives[at]),
        directive_value(directives[at]) matches Some(text) && text.len() > 0 && parse_u64(
            text,
        ) is None,
    ensures
        parsed(join(directives, ',')) == Err::<u64, MaxAgeParseError>(
            MaxAgeParseError::NonNumericMaxAge,
        ),
{
    lemma_max_age_of_joined(directives, at);
}

} // verus!
