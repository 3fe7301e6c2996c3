//! UTF-8 text operations of std, with what their documentation promises.
use vstd::prelude::*;
use vstd::string::StringSliceAdditionalSpecFns;
use vstd::utf8::valid_utf8;

verus! {

/// Reads `bytes` as UTF-8 text.
///
/// Calls `core::str::from_utf8`; the contract claims, as its documentation says, that
/// it succeeds exactly when the bytes are valid UTF-8 and that the text then has the
/// same bytes.
#[verifier::external_body]
pub(crate) fn str_from_utf8(bytes: &[u8]) -> (r: Option<&str>)
    ensures
        r is Some <==> valid_utf8(bytes@),
        r matches Some(s) ==> s.spec_bytes() == bytes@,
{
    core::str::from_utf8(bytes).ok()
}

/// Whether `s` contains the character `c`.
///
/// Calls `str::contains` with a `char` pattern; the contract claims that the
/// result tells whether `c` is one of the characters of `s`.
#[verifier::external_body]
pub(crate) fn str_contains_char(s: &str, c: char) -> (r: bool)
    ensures
        r == s@.contains(c),
{
    s.contains(c)
}

/// Whether `s` starts with `prefix`.
///
/// Calls `str::starts_with` with a `&str` pattern; the contract claims that the
/// result tells whether the characters of `prefix` begin those of `s`.
#[verifier::external_body]
pub(crate) fn str_starts_with(s: &str, prefix: &str) -> (r: bool)
    ensures
        r == prefix@.is_prefix_of(s@),
{
    s.starts_with(prefix)
}

/// Whether `s` ends with `suffix`.
///
/// Calls `str::ends_with` with a `&str` pattern; the contract claims that the
/// result tells whether the characters of `suffix` end those of `s`.
#[verifier::external_body]
pub(crate) fn str_ends_with(s: &str, suffix: &str) -> (r: bool)
    ensures
        r == suffix@.is_suffix_of(s@),
{
    s.ends_with(suffix)
}

} // verus!
