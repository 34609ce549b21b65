//! The matcher: the test of one line against one pattern.

use crate::model::{PatternType, PatternView};
use crate::text::{
    contains, ends_with, has_prefix, has_suffix, matches_at, occurs_in, replace_all,
    replaced_all, starts_with, to_chars, trim_end, trim_start, trimmed_end, trimmed_start,
};
use vstd::prelude::*;

verus! {

/// The one pattern in the notation of regular expressions that is understood
/// as such: a `let` declaration with an assignment.
pub const LET_ASSIGNMENT: &'static str = "let\\s+\\w+\\s*=";

/// The notation for a run of whitespace in a regular expression.
pub const WHITESPACE_RUN: &'static str = "\\s+";

/// What a line must hold for a pattern of kind `Regex`. For the pattern
/// `LET_ASSIGNMENT` the line must hold `let ` and `=`. For any other it must
/// hold the pattern's text, with each `WHITESPACE_RUN` read as one space.
pub open spec fn regex_matches(line: Seq<char>, pattern: Seq<char>) -> bool {
    if pattern == LET_ASSIGNMENT@ {
        occurs_in(line, "let "@) && occurs_in(line, "="@)
    } else {
        occurs_in(line, replaced_all(pattern, WHITESPACE_RUN@, " "@))
    }
}

/// Whether `line` matches `pattern`.
pub open spec fn pattern_matches(line: Seq<char>, pattern: PatternView) -> bool {
    match pattern {
        PatternView::Contains(text) => occurs_in(line, text),
        PatternView::StartsWith(text) => has_prefix(trimmed_start(line), text),
        PatternView::EndsWith(text) => has_suffix(trimmed_end(line), text),
        PatternView::Regex(text) => regex_matches(line, text),
    }
}

/// Tells whether `a` and `b` hold the same text.
pub fn same_text(a: &[char], b: &[char]) -> (same: bool)
    ensures
        same == (a@ == b@),
{
    if a.len() != b.len() {
        return false;
    }
    let same = matches_at(a, b, 0);
    assert(a@.subrange(0, a@.len() as int) =~= a@);
    same
}

/// Tests `line` against `pattern`.
pub fn line_matches(line: &[char], pattern: &PatternType) -> (hit: bool)
    ensures
        hit == pattern_matches(line@, pattern@),
{
    match pattern {
        PatternType::Contains(text) => {
            let text = to_chars(text.as_str());
            contains(line, text.as_slice())
        },
        PatternType::StartsWith(text) => {
            let text = to_chars(text.as_str());
            starts_with(trim_start(line), text.as_slice())
        },
        PatternType::EndsWith(text) => {
            let text = to_chars(text.as_str());
            ends_with(trim_end(line), text.as_slice())
        },
        PatternType::Regex(text) => {
            let text = to_chars(text.as_str());
            let known = to_chars(LET_ASSIGNMENT);
            if same_text(text.as_slice(), known.as_slice()) {
                let keyword = to_chars("let ");
                let sign = to_chars("=");
                contains(line, keyword.as_slice()) && contains(line, sign.as_slice())
            } else {
                let run = to_chars(WHITESPACE_RUN);
                let space = to_chars(" ");
                let needle = replace_all(text.as_slice(), run.as_slice(), space.as_slice());
                contains(line, needle.as_slice())
            }
        },
    }
}

} // verus!
