//! What holds of every analysis, whatever the rules, the configuration and
//! the text.

use crate::analysis::{
    active_rules, analysis, findings, fires_on, lemma_findings_push, lemma_line_findings_push,
    line_findings, runs_by_itself, runs_under, suggestion, targets,
};
use crate::config::ConfigView;
use crate::model::{Language, OptimizationView, RuleView, SeverityView};
use crate::ranking::{is_ranked, lemma_ranked_is_permutation, lemma_ranked_is_ranked, ranked};
use crate::text::lines_of;
use vstd::prelude::*;

verus! {

/// Rule `j` of `rules` reports `line`, which has the number `number`, as
/// `o`.
pub open spec fn reports_line(
    rules: Seq<RuleView>,
    filter: Seq<SeverityView>,
    line: Seq<char>,
    number: nat,
    j: int,
    o: OptimizationView,
) -> bool {
    &&& 0 <= j < rules.len()
    &&& fires_on(line, filter)(rules[j])
    &&& o == suggestion(rules[j], line, number)
}

/// Rule `j` of `rules` reports line `i` of `lines` as `o`. The lines are
/// counted from 0 here and numbered from 1 in what is reported.
pub open spec fn reports(
    rules: Seq<RuleView>,
    filter: Seq<SeverityView>,
    lines: Seq<Seq<char>>,
    i: int,
    j: int,
    o: OptimizationView,
) -> bool {
    &&& 0 <= i < lines.len()
    &&& reports_line(rules, filter, lines[i], (i + 1) as nat, j, o)
}

/// Some rule of `rules` reports some line of `lines` as `o`.
pub open spec fn reported(
    rules: Seq<RuleView>,
    filter: Seq<SeverityView>,
    lines: Seq<Seq<char>>,
    o: OptimizationView,
) -> bool {
    exists|i: int, j: int| reports(rules, filter, lines, i, j, o)
}

/// The findings of one line are what the rules report of it, no more and
/// no less.
pub proof fn lemma_line_findings_members(
    rules: Seq<RuleView>,
    filter: Seq<SeverityView>,
    line: Seq<char>,
    number: nat,
    o: OptimizationView,
)
    ensures
        line_findings(rules, filter, line, number).contains(o) <==> exists|j: int|
            reports_line(rules, filter, line, number, j, o),
    decreases rules.len(),
{
    let all = line_findings(rules, filter, line, number);
    if rules.len() == 0 {
        assert(all =~= Seq::<OptimizationView>::empty()) by {
            reveal(Seq::filter);
        }
    } else {
        let head = rules.drop_last();
        let last = rules.last();
        let before = line_findings(head, filter, line, number);
        assert(head.push(last) =~= rules);
        lemma_line_findings_push(head, last, filter, line, number);
        lemma_line_findings_members(head, filter, line, number, o);
        if all.contains(o) {
            let k = choose|k: int| 0 <= k < all.len() && all[k] == o;
            if k < before.len() {
                assert(before[k] == o);
                let j = choose|j: int| reports_line(head, filter, line, number, j, o);
                assert(reports_line(rules, filter, line, number, j, o));
            } else {
                assert(reports_line(rules, filter, line, number, rules.len() - 1, o));
            }
        }
        if exists|j: int| reports_line(rules, filter, line, number, j, o) {
            let j = choose|j: int| reports_line(rules, filter, line, number, j, o);
            if j < head.len() {
                assert(reports_line(head, filter, line, number, j, o));
                let k = choose|k: int| 0 <= k < before.len() && before[k] == o;
                assert(all[k] == o);
            } else {
                assert(all[before.len() as int] == o);
            }
        }
    }
}

/// The findings of a text are what the rules report of its lines, no more
/// and no less.
pub proof fn lemma_findings_members(
    rules: Seq<RuleView>,
    filter: Seq<SeverityView>,
    lines: Seq<Seq<char>>,
    o: OptimizationView,
)
    ensures
        findings(rules, filter, lines).contains(o) <==> reported(rules, filter, lines, o),
    decreases lines.len(),
{
    let all = findings(rules, filter, lines);
    if lines.len() == 0 {
        assert(all =~= Seq::<OptimizationView>::empty());
    } else {
        let head = lines.drop_last();
        let last = lines.last();
        let n = lines.len() as nat;
        let before = findings(rules, filter, head);
        let here = line_findings(rules, filter, last, n);
        assert(head.push(last) =~= lines);
        lemma_findings_push(rules, filter, head, last);
        lemma_findings_members(rules, filter, head, o);
        lemma_line_findings_members(rules, filter, last, n, o);
        if all.contains(o) {
            let k = choose|k: int| 0 <= k < all.len() && all[k] == o;
            if k < before.len() {
                assert(before[k] == o);
                let (i, j) = choose|i: int, j: int| reports(rules, filter, head, i, j, o);
                assert(reports(rules, filter, lines, i, j, o));
            } else {
                assert(here[k - before.len()] == o);
                let j = choose|j: int| reports_line(rules, filter, last, n, j, o);
                assert(reports(rules, filter, lines, lines.len() - 1, j, o));
            }
        }
        if reported(rules, filter, lines, o) {
            let (i, j) = choose|i: int, j: int| reports(rules, filter, lines, i, j, o);
            if i < head.len() {
                assert(reports(rules, filter, head, i, j, o));
                let k = choose|k: int| 0 <= k < before.len() && before[k] == o;
                assert(all[k] == o);
            } else {
                assert(reports_line(rules, filter, last, n, j, o));
                let k = choose|k: int| 0 <= k < here.len() && here[k] == o;
                assert(all[before.len() + k] == o);
            }
        }
    }
}

/// Ranking keeps the findings: what stands in the ranked list stood in the
/// list, and the other way round.
pub proof fn lemma_ranked_members(s: Seq<OptimizationView>, o: OptimizationView)
    ensures
        ranked(s).contains(o) <==> s.contains(o),
{
    lemma_ranked_is_permutation(s);
    vstd::seq_lib::to_multiset_contains(s, o);
    vstd::seq_lib::to_multiset_contains(ranked(s), o);
}

/// A finding is in the result of an analysis if and only if some active
/// rule for the language reports some line of the text as that finding.
pub proof fn law_result_is_what_rules_report(
    built_in: Seq<RuleView>,
    config: ConfigView,
    code: Seq<char>,
    language: Language,
    o: OptimizationView,
)
    ensures
        analysis(built_in, config, code, language).contains(o) <==> reported(
            active_rules(built_in, config).filter(targets(language)),
            config.severity_filter,
            lines_of(code),
            o,
        ),
{
    let rules = active_rules(built_in, config).filter(targets(language));
    lemma_findings_members(rules, config.severity_filter, lines_of(code), o);
    lemma_ranked_members(findings(rules, config.severity_filter, lines_of(code)), o);
}

/// Every active rule for a language is a built-in rule that runs under the
/// configuration, or a custom rule that is enabled by itself, and targets
/// the language.
pub proof fn lemma_relevant_rule(
    built_in: Seq<RuleView>,
    config: ConfigView,
    language: Language,
    j: int,
)
    requires
        0 <= j < active_rules(built_in, config).filter(targets(language)).len(),
    ensures
        ({
            let rule = active_rules(built_in, config).filter(targets(language))[j];
            &&& rule.language == language
            &&& (built_in.contains(rule) && runs_under(config.enabled_rules)(rule))
                || (config.custom_rules.contains(rule) && rule.enabled)
        }),
{
    let active = active_rules(built_in, config);
    let first = built_in.filter(runs_under(config.enabled_rules));
    let second = config.custom_rules.filter(runs_by_itself());
    let rule = active.filter(targets(language))[j];
    active.lemma_filter_pred(targets(language), j);
    assert(active.filter(targets(language)).contains(rule));
    active.lemma_filter_contains_rev(targets(language), rule);
    let k = choose|k: int| 0 <= k < active.len() && active[k] == rule;
    if k < first.len() {
        assert(first[k] == rule);
        built_in.lemma_filter_pred(runs_under(config.enabled_rules), k);
        assert(first.contains(rule));
        built_in.lemma_filter_contains_rev(runs_under(config.enabled_rules), rule);
    } else {
        assert(second[k - first.len()] == rule);
        config.custom_rules.lemma_filter_pred(runs_by_itself(), k - first.len());
        assert(second.contains(rule));
        config.custom_rules.lemma_filter_contains_rev(runs_by_itself(), rule);
    }
}

/// The result of an analysis is ranked: of two findings the more confident
/// one stands first.
pub proof fn law_most_confident_first(
    built_in: Seq<RuleView>,
    config: ConfigView,
    code: Seq<char>,
    language: Language,
)
    ensures
        is_ranked(analysis(built_in, config, code, language)),
        forall|i: int, j: int|
            #![trigger
                analysis(built_in, config, code, language)[i],
                analysis(built_in, config, code, language)[j]
            ]
            0 <= i < analysis(built_in, config, code, language).len() && 0 <= j < analysis(
                built_in,
                config,
                code,
                language,
            ).len() && analysis(built_in, config, code, language)[i].confidence > analysis(
                built_in,
                config,
                code,
                language,
            )[j].confidence ==> i < j,
{
    lemma_ranked_is_ranked(
        findings(
            active_rules(built_in, config).filter(targets(language)),
            config.severity_filter,
            lines_of(code),
        ),
    );
}

/// Every finding in the result of an analysis is the suggestion of an
/// active rule for the language, built-in or custom, for a line that the
/// rule matches. It has the number of that line, counted from 1, and holds
/// the line as it stands; its language is the one asked for; and its
/// severity is one that the configuration lets through.
pub proof fn law_findings_are_sound(
    built_in: Seq<RuleView>,
    config: ConfigView,
    code: Seq<char>,
    language: Language,
    k: int,
)
    requires
        0 <= k < analysis(built_in, config, code, language).len(),
    ensures
        ({
            let o = analysis(built_in, config, code, language)[k];
            let lines = lines_of(code);
            &&& 1 <= o.line_number <= lines.len()
            &&& o.original_code == lines[o.line_number - 1]
            &&& o.language == language
            &&& config.severity_filter.contains(o.severity)
            &&& exists|rule: RuleView|
                {
                    &&& built_in.contains(rule) && runs_under(config.enabled_rules)(rule)
                        || config.custom_rules.contains(rule) && rule.enabled
                    &&& rule.language == language
                    &&& #[trigger] fires_on(o.original_code, config.severity_filter)(rule)
                    &&& o == suggestion(rule, o.original_code, o.line_number)
                }
        }),
{
    let all = analysis(built_in, config, code, language);
    let rules = active_rules(built_in, config).filter(targets(language));
    let lines = lines_of(code);
    let o = all[k];
    assert(all.contains(o));
    law_result_is_what_rules_report(built_in, config, code, language, o);
    let (i, j) = choose|i: int, j: int| reports(rules, config.severity_filter, lines, i, j, o);
    lemma_relevant_rule(built_in, config, language, j);
    assert(fires_on(o.original_code, config.severity_filter)(rules[j]));
}

/// Where the configuration lets no severity through, the analysis finds
/// nothing.
pub proof fn law_empty_filter_finds_nothing(
    built_in: Seq<RuleView>,
    config: ConfigView,
    code: Seq<char>,
    language: Language,
)
    requires
        config.severity_filter.len() == 0,
    ensures
        analysis(built_in, config, code, language).len() == 0,
{
    if analysis(built_in, config, code, language).len() > 0 {
        law_findings_are_sound(built_in, config, code, language, 0);
    }
}

/// Where the configuration lets through the severity of no rule, built-in
/// or custom, the analysis finds nothing.
pub proof fn law_filter_without_the_rules_severities_finds_nothing(
    built_in: Seq<RuleView>,
    config: ConfigView,
    code: Seq<char>,
    language: Language,
)
    requires
        forall|j: int|
            0 <= j < built_in.len() ==> !config.severity_filter.contains(
                (#[trigger] built_in[j]).severity,
            ),
        forall|j: int|
            0 <= j < config.custom_rules.len() ==> !config.severity_filter.contains(
                (#[trigger] config.custom_rules[j]).severity,
            ),
    ensures
        analysis(built_in, config, code, language).len() == 0,
{
    if analysis(built_in, config, code, language).len() > 0 {
        law_findings_are_sound(built_in, config, code, language, 0);
    }
}

/// The analysis of the empty text finds nothing, whatever the language.
pub proof fn law_empty_text_finds_nothing(
    built_in: Seq<RuleView>,
    config: ConfigView,
    language: Language,
)
    ensures
        analysis(built_in, config, Seq::<char>::empty(), language).len() == 0,
{
    let rules = active_rules(built_in, config).filter(targets(language));
    assert(findings(rules, config.severity_filter, lines_of(Seq::<char>::empty())) =~= Seq::<
        OptimizationView,
    >::empty());
}

/// Where every rule, built-in and custom, has a confidence between nothing
/// and certainty, so has every finding.
pub proof fn law_confidence_is_bounded(
    built_in: Seq<RuleView>,
    config: ConfigView,
    code: Seq<char>,
    language: Language,
    k: int,
)
    requires
        forall|j: int| 0 <= j < built_in.len() ==> (#[trigger] built_in[j]).well_formed(),
        forall|j: int|
            0 <= j < config.custom_rules.len() ==> (#[trigger] config.custom_rules[j]).well_formed(),
        0 <= k < analysis(built_in, config, code, language).len(),
    ensures
        analysis(built_in, config, code, language)[k].confidence <= crate::model::FULL_CONFIDENCE,
{
    law_findings_are_sound(built_in, config, code, language, k);
}

/// An enabled custom rule for the language reports every line that it
/// matches and whose severity is let through, whatever the configuration
/// says of rule names: an entry of `enabled_rules` under the name of a
/// custom rule does not reach it.
pub proof fn law_custom_rule_reports(
    built_in: Seq<RuleView>,
    config: ConfigView,
    code: Seq<char>,
    language: Language,
    k: int,
    i: int,
)
    requires
        0 <= k < config.custom_rules.len(),
        config.custom_rules[k].enabled,
        config.custom_rules[k].language == language,
        0 <= i < lines_of(code).len(),
        fires_on(lines_of(code)[i], config.severity_filter)(config.custom_rules[k]),
    ensures
        analysis(built_in, config, code, language).contains(
            suggestion(config.custom_rules[k], lines_of(code)[i], (i + 1) as nat),
        ),
{
    let rule = config.custom_rules[k];
    let first = built_in.filter(runs_under(config.enabled_rules));
    let second = config.custom_rules.filter(runs_by_itself());
    let active = active_rules(built_in, config);
    let rules = active.filter(targets(language));
    let o = suggestion(rule, lines_of(code)[i], (i + 1) as nat);
    config.custom_rules.lemma_filter_contains(runs_by_itself(), k);
    let a = choose|a: int| 0 <= a < second.len() && second[a] == rule;
    assert(active[first.len() + a] == rule);
    active.lemma_filter_contains(targets(language), first.len() + a);
    let j = choose|j: int| 0 <= j < rules.len() && rules[j] == rule;
    assert(reports(rules, config.severity_filter, lines_of(code), i, j, o));
    law_result_is_what_rules_report(built_in, config, code, language, o);
}

/// A built-in rule for the language that runs under the configuration
/// reports every line that it matches and whose severity is let through.
pub proof fn law_built_in_rule_reports(
    built_in: Seq<RuleView>,
    config: ConfigView,
    code: Seq<char>,
    language: Language,
    k: int,
    i: int,
)
    requires
        0 <= k < built_in.len(),
        runs_under(config.enabled_rules)(built_in[k]),
        built_in[k].language == language,
        0 <= i < lines_of(code).len(),
        fires_on(lines_of(code)[i], config.severity_filter)(built_in[k]),
    ensures
        analysis(built_in, config, code, language).contains(
            suggestion(built_in[k], lines_of(code)[i], (i + 1) as nat),
        ),
{
    let rule = built_in[k];
    let first = built_in.filter(runs_under(config.enabled_rules));
    let active = active_rules(built_in, config);
    let rules = active.filter(targets(language));
    let o = suggestion(rule, lines_of(code)[i], (i + 1) as nat);
    built_in.lemma_filter_contains(runs_under(config.enabled_rules), k);
    let a = choose|a: int| 0 <= a < first.len() && first[a] == rule;
    assert(active[a] == rule);
    active.lemma_filter_contains(targets(language), a);
    let j = choose|j: int| 0 <= j < rules.len() && rules[j] == rule;
    assert(reports(rules, config.severity_filter, lines_of(code), i, j, o));
    law_result_is_what_rules_report(built_in, config, code, language, o);
}

/// The test that holds where both `p` and `q` hold.
pub open spec fn both(p: spec_fn(RuleView) -> bool, q: spec_fn(RuleView) -> bool) -> spec_fn(
    RuleView,
) -> bool {
    |rule: RuleView| p(rule) && q(rule)
}

/// To pick by one test and then by another is to pick by both.
pub proof fn lemma_filter_twice(
    s: Seq<RuleView>,
    p: spec_fn(RuleView) -> bool,
    q: spec_fn(RuleView) -> bool,
)
    ensures
        s.filter(p).filter(q) == s.filter(both(p, q)),
    decreases s.len(),
{
    if s.len() == 0 {
        reveal(Seq::filter);
    } else {
        let head = s.drop_last();
        let last = s.last();
        assert(head.push(last) =~= s);
        lemma_filter_twice(head, p, q);
        head.lemma_filter_push(last, p);
        head.lemma_filter_push(last, both(p, q));
        if p(last) {
            head.filter(p).lemma_filter_push(last, q);
        }
    }
}

/// Where `p` holds of no more items of `s` than `q` does, `p` picks no more
/// of them; it picks fewer where `q` holds of an item of which `p` does not;
/// and it picks the same where the two agree on every item.
pub proof fn lemma_filter_narrower(
    s: Seq<RuleView>,
    p: spec_fn(RuleView) -> bool,
    q: spec_fn(RuleView) -> bool,
)
    requires
        forall|j: int| 0 <= j < s.len() && p(#[trigger] s[j]) ==> q(s[j]),
    ensures
        s.filter(p).len() <= s.filter(q).len(),
        (exists|j: int| 0 <= j < s.len() && q(#[trigger] s[j]) && !p(s[j])) ==> s.filter(p).len()
            < s.filter(q).len(),
        (forall|j: int| 0 <= j < s.len() ==> p(#[trigger] s[j]) == q(s[j])) ==> s.filter(p)
            == s.filter(q),
    decreases s.len(),
{
    if s.len() == 0 {
        reveal(Seq::filter);
    } else {
        let head = s.drop_last();
        let last = s.last();
        assert(head.push(last) =~= s);
        assert forall|j: int| 0 <= j < head.len() && p(#[trigger] head[j]) implies q(head[j]) by {
            assert(head[j] == s[j]);
        }
        lemma_filter_narrower(head, p, q);
        head.lemma_filter_push(last, p);
        head.lemma_filter_push(last, q);
        if exists|j: int| 0 <= j < s.len() && q(#[trigger] s[j]) && !p(s[j]) {
            let j = choose|j: int| 0 <= j < s.len() && q(#[trigger] s[j]) && !p(s[j]);
            if j < head.len() {
                assert(head[j] == s[j]);
            }
        }
        if forall|j: int| 0 <= j < s.len() ==> p(#[trigger] s[j]) == q(s[j]) {
            assert forall|j: int| 0 <= j < head.len() implies p(#[trigger] head[j]) == q(
                head[j],
            ) by {
                assert(head[j] == s[j]);
            }
            assert(p(s[s.len() - 1]) == q(s[s.len() - 1]));
        }
    }
}

/// The test that picks, of the built-in rules, those that report `line`
/// when the analysis is run for `language` under `config`.
pub open spec fn built_in_reports(
    config: ConfigView,
    language: Language,
    line: Seq<char>,
) -> spec_fn(RuleView) -> bool {
    both(
        both(runs_under(config.enabled_rules), targets(language)),
        fires_on(line, config.severity_filter),
    )
}

/// The test that picks, of the custom rules, those that report `line` when
/// the analysis is run for `language` under `config`.
pub open spec fn custom_reports(config: ConfigView, language: Language, line: Seq<char>) -> spec_fn(
    RuleView,
) -> bool {
    both(both(runs_by_itself(), targets(language)), fires_on(line, config.severity_filter))
}

/// The number of findings of one line is the number of built-in rules that
/// report it and the number of custom rules that report it, together.
pub proof fn lemma_line_findings_count(
    built_in: Seq<RuleView>,
    config: ConfigView,
    language: Language,
    line: Seq<char>,
    number: nat,
)
    ensures
        line_findings(
            active_rules(built_in, config).filter(targets(language)),
            config.severity_filter,
            line,
            number,
        ).len() == built_in.filter(built_in_reports(config, language, line)).len()
            + config.custom_rules.filter(custom_reports(config, language, line)).len(),
        line_findings(
            active_rules(built_in, config).filter(targets(language)),
            config.severity_filter,
            line,
            number,
        ) == (built_in.filter(built_in_reports(config, language, line))
            + config.custom_rules.filter(custom_reports(config, language, line))).map_values(
            crate::analysis::suggests(line, number),
        ),
{
    let runs = runs_under(config.enabled_rules);
    let fires = fires_on(line, config.severity_filter);
    let first = built_in.filter(runs);
    let second = config.custom_rules.filter(runs_by_itself());
    Seq::filter_distributes_over_add(first, second, targets(language));
    Seq::filter_distributes_over_add(
        first.filter(targets(language)),
        second.filter(targets(language)),
        fires,
    );
    lemma_filter_twice(built_in, runs, targets(language));
    lemma_filter_twice(built_in, both(runs, targets(language)), fires);
    lemma_filter_twice(config.custom_rules, runs_by_itself(), targets(language));
    lemma_filter_twice(config.custom_rules, both(runs_by_itself(), targets(language)), fires);
}

/// The configuration `config` with the rule named `name` switched off.
pub open spec fn with_rule_disabled(config: ConfigView, name: Seq<char>) -> ConfigView {
    ConfigView {
        enabled_rules: config.enabled_rules.insert(name, false),
        custom_rules: config.custom_rules,
        severity_filter: config.severity_filter,
    }
}

/// Line `i` of `lines` is reported, under `config` and for `language`, by
/// built-in rule `j`, which has the name `name`.
pub open spec fn named_rule_reports(
    built_in: Seq<RuleView>,
    config: ConfigView,
    language: Language,
    lines: Seq<Seq<char>>,
    name: Seq<char>,
    i: int,
    j: int,
) -> bool {
    &&& 0 <= i < lines.len()
    &&& 0 <= j < built_in.len()
    &&& built_in[j].name == name
    &&& built_in_reports(config, language, lines[i])(built_in[j])
}

/// What switching a built-in rule off does to the findings of the lines of
/// a text, before they are ranked.
pub proof fn lemma_disabling_findings(
    built_in: Seq<RuleView>,
    config: ConfigView,
    name: Seq<char>,
    lines: Seq<Seq<char>>,
    language: Language,
)
    ensures
        ({
            let before = findings(
                active_rules(built_in, config).filter(targets(language)),
                config.severity_filter,
                lines,
            );
            let after = findings(
                active_rules(built_in, with_rule_disabled(config, name)).filter(
                    targets(language),
                ),
                config.severity_filter,
                lines,
            );
            let hit = exists|i: int, j: int|
                named_rule_reports(built_in, config, language, lines, name, i, j);
            &&& after.len() <= before.len()
            &&& hit ==> after.len() < before.len()
            &&& !hit ==> after == before
        }),
    decreases lines.len(),
{
    let without = with_rule_disabled(config, name);
    let rules = active_rules(built_in, config).filter(targets(language));
    let fewer = active_rules(built_in, without).filter(targets(language));
    let filter = config.severity_filter;
    if lines.len() == 0 {
        assert(findings(rules, filter, lines) =~= Seq::<OptimizationView>::empty());
        assert(findings(fewer, filter, lines) =~= Seq::<OptimizationView>::empty());
    } else {
        let head = lines.drop_last();
        let last = lines.last();
        let n = lines.len() as nat;
        assert(head.push(last) =~= lines);
        lemma_disabling_findings(built_in, config, name, head, language);
        lemma_findings_push(rules, filter, head, last);
        lemma_findings_push(fewer, filter, head, last);
        lemma_line_findings_count(built_in, config, language, last, n);
        lemma_line_findings_count(built_in, without, language, last, n);
        let p = built_in_reports(without, language, last);
        let q = built_in_reports(config, language, last);
        assert(custom_reports(without, language, last) == custom_reports(config, language, last));
        lemma_filter_narrower(built_in, p, q);
        let hit_head = exists|i: int, j: int|
            named_rule_reports(built_in, config, language, head, name, i, j);
        let z = lines.len() - 1;
        let hit_last = exists|j: int|
            #[trigger] named_rule_reports(built_in, config, language, lines, name, z, j);
        let hit = exists|i: int, j: int|
            named_rule_reports(built_in, config, language, lines, name, i, j);
        if hit_head {
            let (i, j) = choose|i: int, j: int|
                named_rule_reports(built_in, config, language, head, name, i, j);
            assert(named_rule_reports(built_in, config, language, lines, name, i, j));
        }
        if hit_last {
            let j = choose|j: int|
                #[trigger] named_rule_reports(built_in, config, language, lines, name, z, j);
            assert(q(built_in[j]) && !p(built_in[j]));
        }
        if hit {
            let (i, j) = choose|i: int, j: int|
                named_rule_reports(built_in, config, language, lines, name, i, j);
            if i < head.len() {
                assert(named_rule_reports(built_in, config, language, head, name, i, j));
            } else {
                assert(hit_last);
            }
        } else {
            assert forall|j: int| 0 <= j < built_in.len() implies p(#[trigger] built_in[j]) == q(
                built_in[j],
            ) by {
                if built_in[j].name == name {
                    assert(!named_rule_reports(built_in, config, language, lines, name, z, j));
                }
            }
        }
    }
}

/// Switching a built-in rule off by its name never adds a finding. It takes
/// findings away where a built-in rule of that name, which ran before,
/// reports a line of the text; where none does, the result stays as it was.
pub proof fn law_disabling_built_in_rule(
    built_in: Seq<RuleView>,
    config: ConfigView,
    name: Seq<char>,
    code: Seq<char>,
    language: Language,
)
    ensures
        ({
            let before = analysis(built_in, config, code, language);
            let after = analysis(built_in, with_rule_disabled(config, name), code, language);
            let hit = exists|i: int, j: int|
                named_rule_reports(built_in, config, language, lines_of(code), name, i, j);
            &&& after.len() <= before.len()
            &&& hit ==> after.len() < before.len()
            &&& !hit ==> after == before
        }),
{
    let without = with_rule_disabled(config, name);
    lemma_disabling_findings(built_in, config, name, lines_of(code), language);
    lemma_ranked_is_permutation(
        findings(
            active_rules(built_in, config).filter(targets(language)),
            config.severity_filter,
            lines_of(code),
        ),
    );
    lemma_ranked_is_permutation(
        findings(
            active_rules(built_in, without).filter(targets(language)),
            config.severity_filter,
            lines_of(code),
        ),
    );
}

} // verus!
