//! The configuration: which built-in rules are switched on or off by name,
//! the caller's own rules, and the severities that are let through.

use crate::model::{views, OptimizationRule, RuleView, Severity, SeverityView};
use crate::text::{
    has_prefix, lines_of, split_lines, starts_with, texts_of, to_chars, to_text, trim, trimmed,
};
use vstd::hash_map::StringHashMap;
use vstd::prelude::*;

verus! {

/// The directive that switches a rule off; the rule's name follows it.
pub const DISABLE_RULE: &'static str = "disable_rule:";

/// The directive that switches a rule on; the rule's name follows it.
pub const ENABLE_RULE: &'static str = "enable_rule:";

/// What the analysis is run with.
pub struct OptimizerConfig {
    /// By rule name, whether a built-in rule runs. A rule without an entry
    /// runs if it is enabled by itself.
    pub enabled_rules: StringHashMap<bool>,
    /// The caller's own rules, in the order in which they were added. Each
    /// runs if it is enabled by itself, whatever `enabled_rules` says.
    pub custom_rules: Vec<OptimizationRule>,
    /// The severities whose suggestions are reported.
    pub severity_filter: Vec<Severity>,
}

/// The value of an `OptimizerConfig`.
pub struct ConfigView {
    pub enabled_rules: Map<Seq<char>, bool>,
    pub custom_rules: Seq<RuleView>,
    pub severity_filter: Seq<SeverityView>,
}

impl View for OptimizerConfig {
    type V = ConfigView;

    open spec fn view(&self) -> ConfigView {
        ConfigView {
            enabled_rules: self.enabled_rules@,
            custom_rules: views(self.custom_rules@),
            severity_filter: views(self.severity_filter@),
        }
    }
}

/// The severities that are let through where nothing else is asked for:
/// all but the caller's own labels.
pub open spec fn default_severity_filter() -> Seq<SeverityView> {
    seq![SeverityView::Info, SeverityView::Warning, SeverityView::Error]
}

/// What one line of a configuration text says: the name of a rule and
/// whether it is switched on, or nothing.
///
/// The line is read without the whitespace around it. Where it begins with
/// `DISABLE_RULE` or `ENABLE_RULE`, the name is what follows, without the
/// whitespace around it. Any other line says nothing.
pub open spec fn directive_of(line: Seq<char>) -> Option<(Seq<char>, bool)> {
    let text = trimmed(line);
    if has_prefix(text, DISABLE_RULE@) {
        Some((trimmed(text.skip(DISABLE_RULE@.len() as int)), false))
    } else if has_prefix(text, ENABLE_RULE@) {
        Some((trimmed(text.skip(ENABLE_RULE@.len() as int)), true))
    } else {
        None
    }
}

/// What the lines of a configuration text say together. Where two lines
/// name the same rule, the later one counts.
pub open spec fn overrides_of(lines: Seq<Seq<char>>) -> Map<Seq<char>, bool>
    decreases lines.len(),
{
    if lines.len() == 0 {
        Map::empty()
    } else {
        let before = overrides_of(lines.drop_last());
        match directive_of(lines.last()) {
            Some((name, enabled)) => before.insert(name, enabled),
            None => before,
        }
    }
}

/// Reads one line of a configuration text.
pub fn parse_directive(line: &[char]) -> (directive: Option<(String, bool)>)
    ensures
        match directive {
            Some((name, enabled)) => directive_of(line@) == Some((name@, enabled)),
            None => directive_of(line@) is None,
        },
{
    let text = trim(line);
    let disable = to_chars(DISABLE_RULE);
    let enable = to_chars(ENABLE_RULE);
    if starts_with(text, disable.as_slice()) {
        let name = trim(&text[disable.len()..text.len()]);
        Some((to_text(name), false))
    } else if starts_with(text, enable.as_slice()) {
        let name = trim(&text[enable.len()..text.len()]);
        Some((to_text(name), true))
    } else {
        None
    }
}

impl OptimizerConfig {
    /// The configuration that changes nothing: no rule is switched by name,
    /// there are no custom rules, and the default severities are let
    /// through.
    pub fn new() -> (config: Self)
        ensures
            config@.enabled_rules == Map::<Seq<char>, bool>::empty(),
            config@.custom_rules == Seq::<RuleView>::empty(),
            config@.severity_filter == default_severity_filter(),
    {
        let mut severity_filter: Vec<Severity> = Vec::new();
        severity_filter.push(Severity::Info);
        severity_filter.push(Severity::Warning);
        severity_filter.push(Severity::Error);
        let config = OptimizerConfig {
            enabled_rules: StringHashMap::new(),
            custom_rules: Vec::new(),
            severity_filter,
        };
        assert(config@.custom_rules =~= Seq::<RuleView>::empty());
        assert(config@.severity_filter =~= default_severity_filter());
        config
    }

    /// Reads a configuration from a text of directives, one to a line. A
    /// line that is no directive is passed over.
    pub fn from_config_string(config_str: &str) -> (config: Self)
        ensures
            config@.enabled_rules == overrides_of(lines_of(config_str@)),
            config@.custom_rules == Seq::<RuleView>::empty(),
            config@.severity_filter == default_severity_filter(),
    {
        let mut config = OptimizerConfig::new();
        let chars = to_chars(config_str);
        let lines = split_lines(chars.as_slice());
        let ghost texts = texts_of(lines@);
        let mut i: usize = 0;
        assert(texts.take(0) =~= Seq::<Seq<char>>::empty());
        while i < lines.len()
            invariant
                i <= lines.len(),
                texts == texts_of(lines@),
                config@.enabled_rules == overrides_of(texts.take(i as int)),
                config@.custom_rules == Seq::<RuleView>::empty(),
                config@.severity_filter == default_severity_filter(),
            decreases lines.len() - i,
        {
            proof {
                assert(texts.take(i + 1).drop_last() =~= texts.take(i as int));
                assert(texts.take(i + 1).last() == lines@[i as int]@);
            }
            match parse_directive(lines[i]) {
                Some((name, enabled)) => {
                    config.enabled_rules.insert(name, enabled);
                },
                None => {},
            }
            i += 1;
        }
        assert(texts.take(i as int) =~= texts);
        config
    }

    /// Adds a rule of the caller's own behind those already there.
    pub fn add_custom_rule(&mut self, rule: OptimizationRule)
        ensures
            final(self)@.custom_rules == old(self)@.custom_rules.push(rule@),
            final(self)@.enabled_rules == old(self)@.enabled_rules,
            final(self)@.severity_filter == old(self)@.severity_filter,
    {
        self.custom_rules.push(rule);
        assert(views(self.custom_rules@) =~= views(old(self).custom_rules@).push(rule@));
    }
}

} // verus!
