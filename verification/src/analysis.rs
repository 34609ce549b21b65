//! The analysis: which rules run, what they find in the lines of a text, and
//! in what order the findings are reported.

use crate::config::{ConfigView, OptimizerConfig};
use crate::matcher::{line_matches, pattern_matches};
use crate::model::{
    views, Language, Optimization, OptimizationRule, OptimizationView, RuleView, Severity,
    SeverityView,
};
use crate::ranking::ranked;
use crate::rewriter::{rewrite_line, rewritten};
use crate::text::{lines_of, texts_of, to_text};
use vstd::prelude::*;

verus! {

/// The test that picks the built-in rules that run under `overrides`: a rule
/// whose name has an entry runs if the entry says so, any other if it is
/// enabled by itself.
pub open spec fn runs_under(overrides: Map<Seq<char>, bool>) -> spec_fn(RuleView) -> bool {
    |rule: RuleView|
        if overrides.contains_key(rule.name) {
            overrides[rule.name]
        } else {
            rule.enabled
        }
}

/// The test that picks the rules that are enabled by themselves.
pub open spec fn runs_by_itself() -> spec_fn(RuleView) -> bool {
    |rule: RuleView| rule.enabled
}

/// The test that picks the rules for `language`.
pub open spec fn targets(language: Language) -> spec_fn(RuleView) -> bool {
    |rule: RuleView| rule.language == language
}

/// The test that picks the rules that report `line`: those whose pattern
/// matches it and whose severity `filter` lets through.
pub open spec fn fires_on(line: Seq<char>, filter: Seq<SeverityView>) -> spec_fn(RuleView) -> bool {
    |rule: RuleView| pattern_matches(line, rule.pattern_type) && filter.contains(rule.severity)
}

/// What `rule` reports of `line`, which is line `number` of the text.
pub open spec fn suggestion(rule: RuleView, line: Seq<char>, number: nat) -> OptimizationView {
    OptimizationView {
        rule_name: rule.name,
        language: rule.language,
        line_number: number,
        original_code: line,
        suggested_code: rewritten(line, rule.pattern_type, rule.replacement),
        explanation: rule.explanation,
        severity: rule.severity,
        confidence: rule.confidence,
    }
}

/// `suggestion` as a function of the rule alone.
pub open spec fn suggests(line: Seq<char>, number: nat) -> spec_fn(RuleView) -> OptimizationView {
    |rule: RuleView| suggestion(rule, line, number)
}

/// The rules that run: the built-in rules that `config` leaves or switches
/// on, in their order, and behind them the custom rules that are enabled by
/// themselves, in theirs. The entries of `enabled_rules` do not touch the
/// custom rules, and nothing is left out for having the name of another.
pub open spec fn active_rules(built_in: Seq<RuleView>, config: ConfigView) -> Seq<RuleView> {
    built_in.filter(runs_under(config.enabled_rules)) + config.custom_rules.filter(
        runs_by_itself(),
    )
}

/// What `rules` report of one line, in the order of the rules.
pub open spec fn line_findings(
    rules: Seq<RuleView>,
    filter: Seq<SeverityView>,
    line: Seq<char>,
    number: nat,
) -> Seq<OptimizationView> {
    rules.filter(fires_on(line, filter)).map_values(suggests(line, number))
}

/// What `rules` report of `lines`, line by line; the lines are numbered
/// from 1.
pub open spec fn findings(
    rules: Seq<RuleView>,
    filter: Seq<SeverityView>,
    lines: Seq<Seq<char>>,
) -> Seq<OptimizationView> {
    Seq::new(
        lines.len(),
        |i: int| line_findings(rules, filter, lines[i], (i + 1) as nat),
    ).flatten()
}

/// The result of analyzing `code` as `language` with the rules `built_in`
/// under `config`: the findings of the active rules for that language,
/// ranked by confidence.
pub open spec fn analysis(
    built_in: Seq<RuleView>,
    config: ConfigView,
    code: Seq<char>,
    language: Language,
) -> Seq<OptimizationView> {
    ranked(
        findings(
            active_rules(built_in, config).filter(targets(language)),
            config.severity_filter,
            lines_of(code),
        ),
    )
}

/// The findings of a text with one more line are those of the text and,
/// behind them, those of the new line.
pub proof fn lemma_findings_push(
    rules: Seq<RuleView>,
    filter: Seq<SeverityView>,
    lines: Seq<Seq<char>>,
    line: Seq<char>,
)
    ensures
        findings(rules, filter, lines.push(line)) == findings(rules, filter, lines)
            + line_findings(rules, filter, line, lines.len() + 1),
{
    let more = lines.push(line);
    let per_line = Seq::new(
        lines.len(),
        |i: int| line_findings(rules, filter, lines[i], (i + 1) as nat),
    );
    let per_line_more = Seq::new(
        more.len(),
        |i: int| line_findings(rules, filter, more[i], (i + 1) as nat),
    );
    assert(per_line_more =~= per_line.push(
        line_findings(rules, filter, line, lines.len() + 1),
    ));
    per_line.lemma_flatten_push(line_findings(rules, filter, line, lines.len() + 1));
}

/// What the rules with one more rule report of a line are the findings of
/// the rules and, where the new rule reports the line, its suggestion.
pub proof fn lemma_line_findings_push(
    rules: Seq<RuleView>,
    rule: RuleView,
    filter: Seq<SeverityView>,
    line: Seq<char>,
    number: nat,
)
    ensures
        line_findings(rules.push(rule), filter, line, number) == if fires_on(line, filter)(rule) {
            line_findings(rules, filter, line, number).push(suggestion(rule, line, number))
        } else {
            line_findings(rules, filter, line, number)
        },
{
    rules.lemma_filter_push(rule, fires_on(line, filter));
    if fires_on(line, filter)(rule) {
        assert(rules.filter(fires_on(line, filter)).push(rule).map_values(suggests(line, number))
            =~= line_findings(rules, filter, line, number).push(suggestion(rule, line, number)));
    }
}

/// Tells whether `filter` lets `severity` through.
pub fn severity_allowed(filter: &Vec<Severity>, severity: &Severity) -> (allowed: bool)
    ensures
        allowed == views(filter@).contains(severity@),
{
    let mut i: usize = 0;
    while i < filter.len()
        invariant
            i <= filter.len(),
            forall|j: int| 0 <= j < i ==> views(filter@)[j] != severity@,
        decreases filter.len() - i,
    {
        if filter[i] == *severity {
            assert(views(filter@)[i as int] == severity@);
            return true;
        }
        i += 1;
    }
    false
}

/// Picks the rules that run: see `active_rules`.
pub fn enabled_rules<'a>(
    built_in: &'a Vec<OptimizationRule>,
    config: &'a OptimizerConfig,
) -> (active: Vec<&'a OptimizationRule>)
    ensures
        views(active@) == active_rules(views(built_in@), config@),
{
    let mut active: Vec<&OptimizationRule> = Vec::new();
    let ghost runs = runs_under(config@.enabled_rules);
    let mut i: usize = 0;
    assert(views(built_in@.take(0)) =~= Seq::<RuleView>::empty());
    assert(Seq::<RuleView>::empty().filter(runs) =~= Seq::<RuleView>::empty()) by {
        reveal(Seq::filter);
    }
    assert(views(active@) =~= Seq::<RuleView>::empty());
    while i < built_in.len()
        invariant
            i <= built_in.len(),
            runs == runs_under(config@.enabled_rules),
            views(active@) == views(built_in@.take(i as int)).filter(runs),
        decreases built_in.len() - i,
    {
        let rule = &built_in[i];
        let is_enabled = match config.enabled_rules.get(rule.name.as_str()) {
            Some(enabled) => *enabled,
            None => rule.enabled,
        };
        proof {
            views(built_in@.take(i as int)).lemma_filter_push(rule@, runs);
            assert(views(built_in@.take(i + 1)) =~= views(built_in@.take(i as int)).push(rule@));
        }
        if is_enabled {
            let ghost before = views(active@);
            active.push(rule);
            assert(views(active@) =~= before.push(rule@));
        }
        i += 1;
    }
    assert(built_in@.take(i as int) =~= built_in@);
    let ghost first = views(active@);
    let ghost custom = config@.custom_rules;
    let mut k: usize = 0;
    assert(custom.take(0).filter(runs_by_itself()) =~= Seq::<RuleView>::empty()) by {
        reveal(Seq::filter);
    }
    assert(first + Seq::<RuleView>::empty() =~= first);
    while k < config.custom_rules.len()
        invariant
            k <= config.custom_rules.len(),
            custom == config@.custom_rules,
            views(active@) == first + custom.take(k as int).filter(runs_by_itself()),
        decreases config.custom_rules.len() - k,
    {
        let rule = &config.custom_rules[k];
        proof {
            custom.take(k as int).lemma_filter_push(rule@, runs_by_itself());
            assert(custom.take(k + 1) =~= custom.take(k as int).push(rule@));
        }
        if rule.enabled {
            let ghost before = views(active@);
            active.push(rule);
            assert(views(active@) =~= before.push(rule@));
            assert(first + custom.take(k as int).filter(runs_by_itself()).push(rule@) =~= (first
                + custom.take(k as int).filter(runs_by_itself())).push(rule@));
        }
        k += 1;
    }
    assert(custom.take(k as int) =~= custom);
    active
}

/// Picks among `rules` those for `language`, in their order.
pub fn rules_for<'a>(rules: &Vec<&'a OptimizationRule>, language: Language) -> (relevant: Vec<
    &'a OptimizationRule,
>)
    ensures
        views(relevant@) == views(rules@).filter(targets(language)),
{
    let mut relevant: Vec<&OptimizationRule> = Vec::new();
    let ghost all = views(rules@);
    let mut i: usize = 0;
    assert(all.take(0).filter(targets(language)) =~= Seq::<RuleView>::empty()) by {
        reveal(Seq::filter);
    }
    assert(views(relevant@) =~= Seq::<RuleView>::empty());
    while i < rules.len()
        invariant
            i <= rules.len(),
            all == views(rules@),
            views(relevant@) == all.take(i as int).filter(targets(language)),
        decreases rules.len() - i,
    {
        let rule = rules[i];
        proof {
            all.take(i as int).lemma_filter_push(rule@, targets(language));
            assert(all.take(i + 1) =~= all.take(i as int).push(rule@));
        }
        if rule.language == language {
            let ghost before = views(relevant@);
            relevant.push(rule);
            assert(views(relevant@) =~= before.push(rule@));
        }
        i += 1;
    }
    assert(all.take(i as int) =~= all);
    relevant
}

/// Runs `rules` over `lines` and collects what they report, line by line
/// and, within a line, rule by rule.
pub fn scan_lines(rules: &Vec<&OptimizationRule>, filter: &Vec<Severity>, lines: &Vec<&[char]>) -> (found:
    Vec<Optimization>)
    ensures
        views(found@) == findings(views(rules@), views(filter@), texts_of(lines@)),
{
    let mut found: Vec<Optimization> = Vec::new();
    let ghost all = views(rules@);
    let ghost allowed = views(filter@);
    let ghost texts = texts_of(lines@);
    let mut i: usize = 0;
    assert(views(found@) =~= findings(all, allowed, texts.take(0)));
    while i < lines.len()
        invariant
            i <= lines.len(),
            all == views(rules@),
            allowed == views(filter@),
            texts == texts_of(lines@),
            views(found@) == findings(all, allowed, texts.take(i as int)),
        decreases lines.len() - i,
    {
        let line = lines[i];
        let ghost done = views(found@);
        let mut k: usize = 0;
        assert(line_findings(all.take(0), allowed, line@, (i + 1) as nat) =~= Seq::<
            OptimizationView,
        >::empty()) by {
            reveal(Seq::filter);
        }
        assert(done + Seq::<OptimizationView>::empty() =~= done);
        while k < rules.len()
            invariant
                k <= rules.len(),
                i < lines.len(),
                all == views(rules@),
                allowed == views(filter@),
                line == lines[i as int],
                views(found@) == done + line_findings(
                    all.take(k as int),
                    allowed,
                    line@,
                    (i + 1) as nat,
                ),
            decreases rules.len() - k,
        {
            let rule = rules[k];
            let ghost before = views(found@);
            let ghost so_far = line_findings(all.take(k as int), allowed, line@, (i + 1) as nat);
            proof {
                lemma_line_findings_push(all.take(k as int), rule@, allowed, line@, (i + 1) as nat);
                assert(all.take(k + 1) =~= all.take(k as int).push(rule@));
            }
            if line_matches(line, &rule.pattern_type) {
                if severity_allowed(filter, &rule.severity) {
                    let suggested = rewrite_line(line, rule);
                    let item = Optimization {
                        rule_name: rule.name.clone(),
                        language: rule.language,
                        line_number: i + 1,
                        original_code: to_text(line),
                        suggested_code: to_text(suggested.as_slice()),
                        explanation: rule.explanation.clone(),
                        severity: rule.severity.clone(),
                        confidence: rule.confidence,
                    };
                    assert(item@ == suggestion(rule@, line@, (i + 1) as nat));
                    found.push(item);
                    assert(views(found@) =~= before.push(item@));
                    assert(done + so_far.push(item@) =~= (done + so_far).push(item@));
                }
            }
            k += 1;
        }
        proof {
            assert(all.take(k as int) =~= all);
            lemma_findings_push(all, allowed, texts.take(i as int), line@);
            assert(texts.take(i + 1) =~= texts.take(i as int).push(line@));
        }
        i += 1;
    }
    assert(texts.take(i as int) =~= texts);
    found
}

} // verus!
