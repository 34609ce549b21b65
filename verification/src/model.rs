//! The data model: languages, severities, patterns, rules and suggestions,
//! each with the mathematical value that contracts speak of.

use vstd::prelude::*;
use vstd::std_specs::cmp::PartialEqSpecImpl;

verus! {

/// The confidence of a rule that is always right, in thousandths.
pub const FULL_CONFIDENCE: u32 = 1000;

/// The values of the items of `items`, in order.
pub open spec fn views<T: View>(items: Seq<T>) -> Seq<T::V> {
    Seq::new(items.len(), |i: int| items[i]@)
}

/// A source language that rules can target.
#[derive(Clone, Copy, Debug, PartialEq, Eq, Structural)]
pub enum Language {
    JavaScript,
    Python,
    Rust,
}

/// How important a suggestion is.
#[derive(Debug)]
pub enum Severity {
    /// Nice to have.
    Info,
    /// Should be fixed.
    Warning,
    /// Must be fixed.
    Error,
    /// A label of the caller's own.
    Custom(String),
}

/// The value of a `Severity`: its tag, and the label's text for `Custom`.
pub enum SeverityView {
    Info,
    Warning,
    Error,
    Custom(Seq<char>),
}

impl View for Severity {
    type V = SeverityView;

    open spec fn view(&self) -> SeverityView {
        match self {
            Severity::Info => SeverityView::Info,
            Severity::Warning => SeverityView::Warning,
            Severity::Error => SeverityView::Error,
            Severity::Custom(label) => SeverityView::Custom(label@),
        }
    }
}

impl Clone for Severity {
    fn clone(&self) -> (copy: Self)
        ensures
            copy == *self,
    {
        match self {
            Severity::Info => Severity::Info,
            Severity::Warning => Severity::Warning,
            Severity::Error => Severity::Error,
            Severity::Custom(label) => Severity::Custom(label.clone()),
        }
    }
}

impl PartialEq for Severity {
    /// Two severities are equal when they have the same tag and, for
    /// `Custom`, the same label.
    fn eq(&self, other: &Severity) -> (same: bool) {
        match self {
            Severity::Info => match other {
                Severity::Info => true,
                _ => false,
            },
            Severity::Warning => match other {
                Severity::Warning => true,
                _ => false,
            },
            Severity::Error => match other {
                Severity::Error => true,
                _ => false,
            },
            Severity::Custom(label) => match other {
                Severity::Custom(other_label) => *label == *other_label,
                _ => false,
            },
        }
    }
}

impl PartialEqSpecImpl for Severity {
    open spec fn obeys_eq_spec() -> bool {
        true
    }

    open spec fn eq_spec(&self, other: &Severity) -> bool {
        self@ == other@
    }
}

/// How a rule matches a line.
#[derive(Debug)]
pub enum PatternType {
    /// The line holds the text somewhere.
    Contains(String),
    /// A pattern in the notation of regular expressions, of which the
    /// matcher honours a small part.
    Regex(String),
    /// The line, without its leading whitespace, begins with the text.
    StartsWith(String),
    /// The line, without its trailing whitespace, ends with the text.
    EndsWith(String),
}

/// The value of a `PatternType`: its kind and the pattern's text.
pub enum PatternView {
    Contains(Seq<char>),
    Regex(Seq<char>),
    StartsWith(Seq<char>),
    EndsWith(Seq<char>),
}

impl View for PatternType {
    type V = PatternView;

    open spec fn view(&self) -> PatternView {
        match self {
            PatternType::Contains(text) => PatternView::Contains(text@),
            PatternType::Regex(text) => PatternView::Regex(text@),
            PatternType::StartsWith(text) => PatternView::StartsWith(text@),
            PatternType::EndsWith(text) => PatternView::EndsWith(text@),
        }
    }
}

impl Clone for PatternType {
    fn clone(&self) -> (copy: Self)
        ensures
            copy == *self,
    {
        match self {
            PatternType::Contains(text) => PatternType::Contains(text.clone()),
            PatternType::Regex(text) => PatternType::Regex(text.clone()),
            PatternType::StartsWith(text) => PatternType::StartsWith(text.clone()),
            PatternType::EndsWith(text) => PatternType::EndsWith(text.clone()),
        }
    }
}

/// A rule: a pattern to look for in the lines of one language, and the
/// suggestion to make where it is found.
#[derive(Debug)]
pub struct OptimizationRule {
    /// The rule's name, by which a configuration switches a built-in rule on
    /// or off.
    pub name: String,
    /// The language whose code the rule applies to.
    pub language: Language,
    /// How the rule matches a line.
    pub pattern_type: PatternType,
    /// The text that the suggestion puts in place of the pattern.
    pub replacement: String,
    /// Why the suggestion is made.
    pub explanation: String,
    /// How important the suggestions of this rule are.
    pub severity: Severity,
    /// How likely a suggestion of this rule is to be right, in thousandths:
    /// from 0 to `FULL_CONFIDENCE`.
    pub confidence: u32,
    /// Whether the rule runs where no configuration says otherwise.
    pub enabled: bool,
}

/// The value of an `OptimizationRule`.
pub struct RuleView {
    pub name: Seq<char>,
    pub language: Language,
    pub pattern_type: PatternView,
    pub replacement: Seq<char>,
    pub explanation: Seq<char>,
    pub severity: SeverityView,
    pub confidence: u32,
    pub enabled: bool,
}

impl RuleView {
    /// The confidence lies between nothing and certainty.
    pub open spec fn well_formed(self) -> bool {
        self.confidence <= FULL_CONFIDENCE
    }
}

impl View for OptimizationRule {
    type V = RuleView;

    open spec fn view(&self) -> RuleView {
        RuleView {
            name: self.name@,
            language: self.language,
            pattern_type: self.pattern_type@,
            replacement: self.replacement@,
            explanation: self.explanation@,
            severity: self.severity@,
            confidence: self.confidence,
            enabled: self.enabled,
        }
    }
}

impl Clone for OptimizationRule {
    fn clone(&self) -> (copy: Self)
        ensures
            copy == *self,
    {
        OptimizationRule {
            name: self.name.clone(),
            language: self.language,
            pattern_type: self.pattern_type.clone(),
            replacement: self.replacement.clone(),
            explanation: self.explanation.clone(),
            severity: self.severity.clone(),
            confidence: self.confidence,
            enabled: self.enabled,
        }
    }
}

impl OptimizationRule {
    /// Tells whether the rule's confidence lies between nothing and
    /// certainty.
    pub fn is_well_formed(&self) -> (ok: bool)
        ensures
            ok == self@.well_formed(),
    {
        self.confidence <= FULL_CONFIDENCE
    }
}

/// One finding: a rule that matched a line, with the line as it is and as
/// the rule suggests it.
#[derive(Debug)]
pub struct Optimization {
    /// The name of the rule that matched.
    pub rule_name: String,
    /// The language that was analyzed.
    pub language: Language,
    /// The number of the line, counted from 1.
    pub line_number: usize,
    /// The line as it stands.
    pub original_code: String,
    /// The line as the rule would have it.
    pub suggested_code: String,
    /// Why the suggestion is made.
    pub explanation: String,
    /// How important the suggestion is.
    pub severity: Severity,
    /// How likely the suggestion is to be right, in thousandths.
    pub confidence: u32,
}

/// The value of an `Optimization`.
pub struct OptimizationView {
    pub rule_name: Seq<char>,
    pub language: Language,
    pub line_number: nat,
    pub original_code: Seq<char>,
    pub suggested_code: Seq<char>,
    pub explanation: Seq<char>,
    pub severity: SeverityView,
    pub confidence: u32,
}

impl View for Optimization {
    type V = OptimizationView;

    open spec fn view(&self) -> OptimizationView {
        OptimizationView {
            rule_name: self.rule_name@,
            language: self.language,
            line_number: self.line_number as nat,
            original_code: self.original_code@,
            suggested_code: self.suggested_code@,
            explanation: self.explanation@,
            severity: self.severity@,
            confidence: self.confidence,
        }
    }
}

impl Clone for Optimization {
    fn clone(&self) -> (copy: Self)
        ensures
            copy == *self,
    {
        Optimization {
            rule_name: self.rule_name.clone(),
            language: self.language,
            line_number: self.line_number,
            original_code: self.original_code.clone(),
            suggested_code: self.suggested_code.clone(),
            explanation: self.explanation.clone(),
            severity: self.severity.clone(),
            confidence: self.confidence,
        }
    }
}

} // verus!
