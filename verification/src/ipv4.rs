//! Recognising server names written as dotted IPv4 addresses, with `regex`.
use vstd::prelude::*;

verus! {

/// The pattern of a server name written as four dot-separated groups of one
/// to three digits.
pub const IPV4_PATTERN: &'static str = r"^\d{1,3}\.\d{1,3}\.\d{1,3}\.\d{1,3}$";

/// Whether the regex compiled from `pattern` matches in `haystack`, as
/// `regex::Regex::is_match` decides it.
pub uninterp spec fn regex_is_match(pattern: Seq<char>, haystack: Seq<char>) -> bool;

/// Compiles `pattern` with `regex::Regex::new` and tests `haystack` with
/// `Regex::is_match`. The call is admitted for the IPv4 pattern only: that
/// pattern is valid regex syntax and far below the default size limit on
/// every target, so compiling it cannot fail and the `unwrap` cannot
/// panic. Regex matching is not restated: the result is the name
/// `regex_is_match` applied to the arguments.
#[verifier::external_body]
pub(crate) fn regex_match(pattern: &str, haystack: &str) -> (r: bool)
    requires
        pattern@ == IPV4_PATTERN@,
    ensures
        r == regex_is_match(pattern@, haystack@),
{
    regex::Regex::new(pattern).unwrap().is_match(haystack)
}

/// Whether `name` is a server name written as a dotted IPv4 address: the
/// IPv4 pattern matches it.
pub open spec fn is_ipv4_text(name: Seq<char>) -> bool {
    regex_is_match(IPV4_PATTERN@, name)
}

} // verus!
