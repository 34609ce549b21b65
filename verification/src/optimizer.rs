//! The optimizer: the built-in rules together with a configuration, and the
//! analysis of a text with both.

use crate::analysis::{active_rules, analysis, enabled_rules, rules_for, scan_lines};
use crate::catalog::{
    add_built_in_rules, built_in_rules, law_built_in_rules_run_and_are_well_formed,
};
use crate::config::{default_severity_filter, ConfigView, OptimizerConfig};
use crate::matcher::{line_matches, pattern_matches};
use crate::laws::{
    law_confidence_is_bounded, law_empty_filter_finds_nothing, law_empty_text_finds_nothing,
    law_findings_are_sound,
};
use crate::model::{
    views, Language, Optimization, OptimizationRule, PatternType, RuleView, FULL_CONFIDENCE,
};
use crate::ranking::{is_ranked, rank_by_confidence};
use crate::rewriter::{rewrite_line, rewritten};
use crate::text::{decimal, decimal_of, lines_of, split_lines, to_chars, to_text};
use vstd::prelude::*;

verus! {

/// The name that an optimizer gives itself.
pub const OPTIMIZER_NAME: &'static str = "Advanced Code Optimizer";

/// What an optimizer says of itself when it has `total` rules in all, of
/// which `enabled` run and `custom` are the caller's own.
pub open spec fn summary(total: nat, enabled: nat, custom: nat) -> Seq<char> {
    "Hello from "@ + OPTIMIZER_NAME@ + "!\n  \u{1F4CA} Total rules: "@ + decimal_of(total)
        + "\n  \u{2705} Enabled rules: "@ + decimal_of(enabled) + "\n  \u{1F3AF} Custom rules: "@
        + decimal_of(custom)
}

/// The built-in rules and a configuration. Its value is that of its
/// configuration: the rules are the same for every optimizer.
pub struct CodeOptimizer {
    name: String,
    rules: Vec<OptimizationRule>,
    config: OptimizerConfig,
}

impl View for CodeOptimizer {
    type V = ConfigView;

    closed spec fn view(&self) -> ConfigView {
        self.config@
    }
}

impl CodeOptimizer {
    #[verifier::type_invariant]
    spec fn holds_catalog(&self) -> bool {
        &&& self.name@ == OPTIMIZER_NAME@
        &&& views(self.rules@) == built_in_rules()
    }

    /// An optimizer with the configuration that changes nothing.
    pub fn new() -> (optimizer: Self)
        ensures
            optimizer@.enabled_rules == Map::<Seq<char>, bool>::empty(),
            optimizer@.custom_rules == Seq::<RuleView>::empty(),
            optimizer@.severity_filter == default_severity_filter(),
    {
        CodeOptimizer::with_config(OptimizerConfig::new())
    }

    /// An optimizer with the configuration `config`.
    pub fn with_config(config: OptimizerConfig) -> (optimizer: Self)
        ensures
            optimizer@ == config@,
    {
        let mut rules: Vec<OptimizationRule> = Vec::new();
        add_built_in_rules(&mut rules);
        assert(views(rules@) =~= built_in_rules());
        CodeOptimizer { name: OPTIMIZER_NAME.to_string(), rules, config }
    }

    /// Says what the optimizer holds: its name, the number of its rules,
    /// built-in and custom together, the number of those that run, and the
    /// number of the custom ones.
    pub fn hello(&self) -> (message: String)
        ensures
            message@ == summary(
                built_in_rules().len() + self@.custom_rules.len(),
                active_rules(built_in_rules(), self@).len(),
                self@.custom_rules.len(),
            ),
    {
        proof {
            use_type_invariant(self);
        }
        let custom: usize = self.config.custom_rules.len();
        let total: u128 = self.rules.len() as u128 + custom as u128;
        let enabled: usize = self.get_enabled_rules().len();
        let mut message = String::new();
        message.append("Hello from ");
        message.append(self.name.as_str());
        message.append("!\n  \u{1F4CA} Total rules: ");
        message.append(to_text(decimal(total).as_slice()).as_str());
        message.append("\n  \u{2705} Enabled rules: ");
        message.append(to_text(decimal(enabled as u128).as_slice()).as_str());
        message.append("\n  \u{1F3AF} Custom rules: ");
        message.append(to_text(decimal(custom as u128).as_slice()).as_str());
        assert(message@ =~= summary(
            built_in_rules().len() + self@.custom_rules.len(),
            active_rules(built_in_rules(), self@).len(),
            self@.custom_rules.len(),
        ));
        message
    }

    /// The rules that run under the optimizer's configuration.
    pub fn get_enabled_rules(&self) -> (active: Vec<&OptimizationRule>)
        ensures
            views(active@) == active_rules(built_in_rules(), self@),
    {
        proof {
            use_type_invariant(self);
        }
        enabled_rules(&self.rules, &self.config)
    }

    /// Tests `line` against `pattern`.
    pub fn matches_pattern(&self, line: &str, pattern: &PatternType) -> (hit: bool)
        ensures
            hit == pattern_matches(line@, pattern@),
    {
        let chars = to_chars(line);
        line_matches(chars.as_slice(), pattern)
    }

    /// Analyzes `code` as a text in `language`: runs the active rules for
    /// that language over its lines and ranks what they report.
    ///
    /// The result is the most confident finding first; findings of equal
    /// confidence stand in the order of their lines and, within a line, of
    /// their rules. Each finding carries the number of its line, counted
    /// from 1, and the line as it stands, is for `language`, and has a
    /// severity that the configuration lets through. Nothing is found in
    /// the empty text, and nothing where no severity is let through.
    pub fn analyze_code(&self, code: &str, language: Language) -> (result: Vec<Optimization>)
        ensures
            views(result@) == analysis(built_in_rules(), self@, code@, language),
            is_ranked(views(result@)),
            forall|k: int|
                0 <= k < result.len() ==> {
                    let o = (#[trigger] result[k])@;
                    &&& 1 <= o.line_number <= lines_of(code@).len()
                    &&& o.original_code == lines_of(code@)[o.line_number - 1]
                    &&& o.language == language
                    &&& self@.severity_filter.contains(o.severity)
                },
            self@.severity_filter.len() == 0 ==> result.len() == 0,
            code@.len() == 0 ==> result.len() == 0,
            (forall|j: int|
                0 <= j < self@.custom_rules.len() ==> (#[trigger] self@.custom_rules[j]).well_formed())
                ==> forall|k: int|
                0 <= k < result.len() ==> (#[trigger] result[k]).confidence <= FULL_CONFIDENCE,
    {
        let chars = to_chars(code);
        let lines = split_lines(chars.as_slice());
        let active = self.get_enabled_rules();
        let relevant = rules_for(&active, language);
        let found = scan_lines(&relevant, &self.config.severity_filter, &lines);
        let result = rank_by_confidence(found);
        proof {
            assert forall|k: int| 0 <= k < result.len() implies {
                let o = (#[trigger] result[k])@;
                &&& 1 <= o.line_number <= lines_of(code@).len()
                &&& o.original_code == lines_of(code@)[o.line_number - 1]
                &&& o.language == language
                &&& self@.severity_filter.contains(o.severity)
            } by {
                law_findings_are_sound(built_in_rules(), self@, code@, language, k);
            }
            if self@.severity_filter.len() == 0 {
                law_empty_filter_finds_nothing(built_in_rules(), self@, code@, language);
            }
            if code@.len() == 0 {
                assert(code@ =~= Seq::<char>::empty());
                law_empty_text_finds_nothing(built_in_rules(), self@, language);
            }
            if forall|j: int|
                0 <= j < self@.custom_rules.len() ==> (#[trigger] self@.custom_rules[j]).well_formed() {
                law_built_in_rules_run_and_are_well_formed();
                assert forall|k: int| 0 <= k < result.len() implies (#[trigger] result[k]).confidence
                    <= FULL_CONFIDENCE by {
                    law_confidence_is_bounded(built_in_rules(), self@, code@, language, k);
                    assert(views(result@)[k] == result[k]@);
                }
            }
        }
        result
    }

    /// The line that `rule` suggests in place of `line`.
    pub fn apply_replacement(&self, line: &str, rule: &OptimizationRule) -> (suggested: String)
        ensures
            suggested@ == rewritten(line@, rule@.pattern_type, rule@.replacement),
    {
        let chars = to_chars(line);
        to_text(rewrite_line(chars.as_slice(), rule).as_slice())
    }

    /// Puts `config` in place of the optimizer's configuration.
    pub fn update_config(&mut self, config: OptimizerConfig)
        ensures
            final(self)@ == config@,
    {
        proof {
            use_type_invariant(&*self);
        }
        self.config = config;
    }
}

} // verus!
