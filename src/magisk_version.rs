//! Finding the version string inside a decompressed payload binary.

use vstd::prelude::*;
use vstd::slice::slice_subrange;
use crate::error::ExtractError;

verus! {

/// The version pattern: `digits.digits(ddddd)`, for example `25.2(25200)`.
pub const VERSION_PATTERN: &'static str = r"[0-9]+\.[0-9]+\([0-9]{5}\)";

/// The span of the first match of the version pattern in `h`, or `None`
/// where it matches nowhere.
pub uninterp spec fn version_match_of(h: Seq<u8>) -> Option<(usize, usize)>;

/// Relies on regex::bytes::Regex::find with `VERSION_PATTERN`: the span of
/// the leftmost match, which lies within the haystack.
#[verifier::external_body]
fn version_match(haystack: &[u8]) -> (r: Option<(usize, usize)>)
    ensures
        r == version_match_of(haystack@),
        r matches Some(m) ==> m.0 <= m.1 <= haystack@.len(),
{
    let m = regex::bytes::Regex::new(VERSION_PATTERN).unwrap().find(haystack)?;
    Some((m.start(), m.end()))
}

/// The version string under the span `m` of `payload`; `PatternNotFound`
/// where there is no span.
pub fn version_from_match(payload: &[u8], m: Option<(usize, usize)>) -> (r: Result<&[u8], ExtractError>)
    requires
        m matches Some(s) ==> s.0 <= s.1 <= payload@.len(),
    ensures
        m is None ==> r == Err::<&[u8], ExtractError>(ExtractError::PatternNotFound),
        m matches Some(s) ==> r matches Ok(v) && v@ == payload@.subrange(s.0 as int, s.1 as int),
{
    match m {
        None => Err(ExtractError::PatternNotFound),
        Some((start, end)) => Ok(slice_subrange(payload, start, end)),
    }
}

/// Finds the payload's version string: the first match of the version
/// pattern, or `PatternNotFound`.
pub fn find_magisk_version(payload: &[u8]) -> (r: Result<&[u8], ExtractError>)
    ensures
        version_match_of(payload@) is None ==> r == Err::<&[u8], ExtractError>(
            ExtractError::PatternNotFound,
        ),
        version_match_of(payload@) matches Some(s) ==> r matches Ok(v) && v@ == payload@.subrange(
            s.0 as int,
            s.1 as int,
        ),
{
    version_from_match(payload, version_match(payload))
}

} // verus!
