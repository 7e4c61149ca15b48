//! Matching text against patterns, by way of `regex`.

use vstd::prelude::*;
use crate::models;

verus! {

/// The text that the named group takes part with in the leftmost match of the
/// pattern in the line, as `regex::Regex::captures` finds it; `None` where the
/// pattern does not compile, does not match, or the group takes no part.
pub uninterp spec fn captured(
    pattern: Seq<char>,
    group: Seq<char>,
    line: Seq<char>,
) -> Option<Seq<char>>;

/// `regex::Regex::new`, `Regex::captures` and `Captures::name`, one after the
/// other. The contract names the text of the group; it does not say what the
/// pattern matches.
#[verifier::external_body]
pub(crate) fn capture(pattern: &str, group: &str, line: &str) -> (r: Option<String>)
    ensures
        models::opt_text(r) == captured(pattern@, group@, line@),
{
    let regex = regex::Regex::new(pattern).ok()?;
    let captures = regex.captures(line)?;
    captures.name(group).map(|found| found.as_str().to_string())
}

} // verus!
