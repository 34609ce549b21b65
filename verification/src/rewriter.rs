//! The rewriter: the line that a rule suggests in place of a line it matched.

use crate::model::{OptimizationRule, PatternType, PatternView};
use crate::text::{
    has_prefix, replace_all, replace_first, replaced_all, replaced_first, starts_with, to_chars,
    trim_start, trimmed_start,
};
use vstd::prelude::*;

verus! {

/// The text that is replaced in a line matched by a pattern of a kind that
/// has no rewriting of its own.
pub const PLACEHOLDER: &'static str = "pattern";

/// The line that a rule with `pattern` and `replacement` suggests for `line`.
///
/// For `Contains`, every occurrence of the pattern's text is replaced. For
/// `StartsWith`, the leftmost occurrence is replaced where the line, without
/// its leading whitespace, begins with the text; otherwise the line stays as
/// it is. For the other kinds every occurrence of `PLACEHOLDER` is replaced.
pub open spec fn rewritten(line: Seq<char>, pattern: PatternView, replacement: Seq<char>) -> Seq<
    char,
> {
    match pattern {
        PatternView::Contains(text) => replaced_all(line, text, replacement),
        PatternView::StartsWith(text) => if has_prefix(trimmed_start(line), text) {
            replaced_first(line, text, replacement)
        } else {
            line
        },
        PatternView::EndsWith(_) => replaced_all(line, PLACEHOLDER@, replacement),
        PatternView::Regex(_) => replaced_all(line, PLACEHOLDER@, replacement),
    }
}

/// Rewrites `line` as `rule` suggests.
pub fn rewrite_line(line: &[char], rule: &OptimizationRule) -> (suggested: Vec<char>)
    ensures
        suggested@ == rewritten(line@, rule@.pattern_type, rule@.replacement),
{
    let replacement = to_chars(rule.replacement.as_str());
    match &rule.pattern_type {
        PatternType::Contains(text) => {
            let text = to_chars(text.as_str());
            replace_all(line, text.as_slice(), replacement.as_slice())
        },
        PatternType::StartsWith(text) => {
            let text = to_chars(text.as_str());
            if starts_with(trim_start(line), text.as_slice()) {
                replace_first(line, text.as_slice(), replacement.as_slice())
            } else {
                let mut same: Vec<char> = Vec::new();
                crate::text::append_chars(&mut same, line);
                same
            }
        },
        _ => {
            let text = to_chars(PLACEHOLDER);
            replace_all(line, text.as_slice(), replacement.as_slice())
        },
    }
}

} // verus!
