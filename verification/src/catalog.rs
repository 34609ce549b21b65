//! The catalog: the rules that every optimizer is built with.

use crate::model::{
    views, Language, OptimizationRule, PatternType, PatternView, RuleView, Severity, SeverityView,
};
use vstd::prelude::*;

verus! {

/// For JavaScript: prefer `const` to `let`.
pub open spec fn use_const() -> RuleView {
    RuleView {
        name: "use-const"@,
        language: Language::JavaScript,
        pattern_type: PatternView::Contains("let "@),
        replacement: "const "@,
        explanation: "Use 'const' for variables that never change"@,
        severity: SeverityView::Info,
        confidence: 800,
        enabled: true,
    }
}

/// For JavaScript: the shorter notation for functions.
pub open spec fn arrow_function() -> RuleView {
    RuleView {
        name: "arrow-function"@,
        language: Language::JavaScript,
        pattern_type: PatternView::Contains("function("@),
        replacement: "("@,
        explanation: "Consider using arrow functions for shorter syntax"@,
        severity: SeverityView::Info,
        confidence: 600,
        enabled: true,
    }
}

/// For Python: a comprehension in place of a loop.
pub open spec fn list_comprehension() -> RuleView {
    RuleView {
        name: "list-comprehension"@,
        language: Language::Python,
        pattern_type: PatternView::Contains("for "@),
        replacement: "["@,
        explanation: "Consider using list comprehension for better performance"@,
        severity: SeverityView::Info,
        confidence: 700,
        enabled: true,
    }
}

/// For Python: `pathlib` in place of `os.path`.
pub open spec fn pathlib_usage() -> RuleView {
    RuleView {
        name: "pathlib-usage"@,
        language: Language::Python,
        pattern_type: PatternView::Contains("os.path"@),
        replacement: "pathlib."@,
        explanation: "Use pathlib instead of os.path for modern path handling"@,
        severity: SeverityView::Warning,
        confidence: 900,
        enabled: true,
    }
}

/// For Rust: a `clone()` that is likely not needed.
pub open spec fn clippy_style() -> RuleView {
    RuleView {
        name: "clippy-style"@,
        language: Language::Rust,
        pattern_type: PatternView::Contains(".clone()"@),
        replacement: ""@,
        explanation: "Unnecessary clone() - consider borrowing instead"@,
        severity: SeverityView::Warning,
        confidence: 800,
        enabled: true,
    }
}

/// The built-in rules, in the order in which they run: those for
/// JavaScript, those for Python, that for Rust.
pub open spec fn built_in_rules() -> Seq<RuleView> {
    seq![use_const(), arrow_function(), list_comprehension(), pathlib_usage(), clippy_style()]
}

/// Every built-in rule is enabled by itself and has a confidence between
/// nothing and certainty.
pub proof fn law_built_in_rules_run_and_are_well_formed()
    ensures
        built_in_rules().len() == 5,
        forall|i: int|
            0 <= i < built_in_rules().len() ==> (#[trigger] built_in_rules()[i]).enabled
                && built_in_rules()[i].well_formed(),
{
}

/// Appends the built-in rules to `rules`.
pub fn add_built_in_rules(rules: &mut Vec<OptimizationRule>)
    ensures
        views(final(rules)@) == views(old(rules)@) + built_in_rules(),
{
    rules.push(
        OptimizationRule {
            name: "use-const".to_string(),
            language: Language::JavaScript,
            pattern_type: PatternType::Contains("let ".to_string()),
            replacement: "const ".to_string(),
            explanation: "Use 'const' for variables that never change".to_string(),
            severity: Severity::Info,
            confidence: 800,
            enabled: true,
        },
    );
    rules.push(
        OptimizationRule {
            name: "arrow-function".to_string(),
            language: Language::JavaScript,
            pattern_type: PatternType::Contains("function(".to_string()),
            replacement: "(".to_string(),
            explanation: "Consider using arrow functions for shorter syntax".to_string(),
            severity: Severity::Info,
            confidence: 600,
            enabled: true,
        },
    );
    rules.push(
        OptimizationRule {
            name: "list-comprehension".to_string(),
            language: Language::Python,
            pattern_type: PatternType::Contains("for ".to_string()),
            replacement: "[".to_string(),
            explanation: "Consider using list comprehension for better performance".to_string(),
            severity: Severity::Info,
            confidence: 700,
            enabled: true,
        },
    );
    rules.push(
        OptimizationRule {
            name: "pathlib-usage".to_string(),
            language: Language::Python,
            pattern_type: PatternType::Contains("os.path".to_string()),
            replacement: "pathlib.".to_string(),
            explanation: "Use pathlib instead of os.path for modern path handling".to_string(),
            severity: Severity::Warning,
            confidence: 900,
            enabled: true,
        },
    );
    rules.push(
        OptimizationRule {
            name: "clippy-style".to_string(),
            language: Language::Rust,
            pattern_type: PatternType::Contains(".clone()".to_string()),
            replacement: "".to_string(),
            explanation: "Unnecessary clone() - consider borrowing instead".to_string(),
            severity: Severity::Warning,
            confidence: 800,
            enabled: true,
        },
    );
    assert(views(rules@) =~= views(old(rules)@) + built_in_rules());
}

} // verus!
