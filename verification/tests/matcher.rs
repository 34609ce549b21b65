use code_optimizer_core::matcher::{line_matches, same_text, LET_ASSIGNMENT, WHITESPACE_RUN};
use code_optimizer_core::rewriter::{rewrite_line, PLACEHOLDER};
use code_optimizer_core::{CodeOptimizer, Language, OptimizationRule, PatternType, Severity};

fn chars(s: &str) -> Vec<char> {
    s.chars().collect()
}

fn rule(pattern_type: PatternType, replacement: &str) -> OptimizationRule {
    OptimizationRule {
        name: "r".to_string(),
        language: Language::JavaScript,
        pattern_type,
        replacement: replacement.to_string(),
        explanation: "e".to_string(),
        severity: Severity::Info,
        confidence: 500,
        enabled: true,
    }
}

fn contains(t: &str) -> PatternType {
    PatternType::Contains(t.to_string())
}

fn starts(t: &str) -> PatternType {
    PatternType::StartsWith(t.to_string())
}

fn ends(t: &str) -> PatternType {
    PatternType::EndsWith(t.to_string())
}

fn regex(t: &str) -> PatternType {
    PatternType::Regex(t.to_string())
}

#[test]
fn constants_have_their_texts() {
    assert_eq!(LET_ASSIGNMENT, r"let\s+\w+\s*=");
    assert_eq!(WHITESPACE_RUN, r"\s+");
    assert_eq!(PLACEHOLDER, "pattern");
}

#[test]
fn same_text_compares_character_by_character() {
    assert!(same_text(&chars("abc"), &chars("abc")));
    assert!(same_text(&[], &[]));
    assert!(!same_text(&chars("abc"), &chars("abd")));
    assert!(!same_text(&chars("abc"), &chars("ab")));
    assert!(!same_text(&chars("ab"), &chars("abc")));
    assert!(!same_text(&[], &chars("a")));
}

#[test]
fn contains_matches_anywhere_and_minds_the_case() {
    let o = CodeOptimizer::new();
    assert!(o.matches_pattern("let x = 1;", &contains("let ")));
    assert!(o.matches_pattern("  outlet x", &contains("let ")));
    assert!(!o.matches_pattern("Let x = 1;", &contains("let ")));
    assert!(!o.matches_pattern("let", &contains("let ")));
    assert!(!o.matches_pattern("", &contains("let ")));
    assert!(o.matches_pattern("", &contains("")));
    assert!(o.matches_pattern("anything", &contains("")));
}

#[test]
fn starts_with_passes_over_leading_whitespace_only() {
    let o = CodeOptimizer::new();
    assert!(o.matches_pattern("var x", &starts("var")));
    assert!(o.matches_pattern("   \tvar x", &starts("var")));
    assert!(!o.matches_pattern("x var", &starts("var")));
    assert!(!o.matches_pattern("va", &starts("var")));
    assert!(!o.matches_pattern("  var", &starts(" var")));
    assert!(o.matches_pattern("   ", &starts("")));
    assert!(!o.matches_pattern("", &starts("var")));
}

#[test]
fn ends_with_passes_over_trailing_whitespace_only() {
    let o = CodeOptimizer::new();
    assert!(o.matches_pattern("x = 1;", &ends(";")));
    assert!(o.matches_pattern("x = 1;  \t", &ends(";")));
    assert!(!o.matches_pattern("x = 1; // c", &ends(";")));
    assert!(!o.matches_pattern("  ;x", &ends(";")));
    assert!(!o.matches_pattern("x; ", &ends("; ")));
    assert!(o.matches_pattern("", &ends("")));
    assert!(!o.matches_pattern("", &ends(";")));
}

#[test]
fn regex_knows_the_let_assignment() {
    let o = CodeOptimizer::new();
    let p = regex(LET_ASSIGNMENT);
    assert!(o.matches_pattern("let x = 1;", &p));
    assert!(o.matches_pattern("a = b; let c", &p));
    assert!(!o.matches_pattern("let x;", &p));
    assert!(!o.matches_pattern("x = 1;", &p));
    assert!(!o.matches_pattern("letx = 1", &p));
    assert!(!o.matches_pattern(r"let\s+\w+\s*=", &regex(r"let\s+\w+\s*")));
}

#[test]
fn regex_reads_a_whitespace_run_as_one_space() {
    let o = CodeOptimizer::new();
    assert!(o.matches_pattern("if x then", &regex(r"if\s+x")));
    assert!(!o.matches_pattern("if  x then", &regex(r"if\s+x")));
    assert!(!o.matches_pattern("ifx", &regex(r"if\s+x")));
    assert!(o.matches_pattern("a b c", &regex(r"a\s+b\s+c")));
    assert!(o.matches_pattern("plain text", &regex("plain")));
    assert!(!o.matches_pattern("plain text", &regex("p.ain")));
    assert!(o.matches_pattern(r"a\s*b", &regex(r"a\s*b")));
    assert!(o.matches_pattern("x", &regex("")));
}

#[test]
fn line_matches_works_on_characters() {
    assert!(line_matches(&chars("let x"), &contains("let ")));
    assert!(!line_matches(&chars("const x"), &contains("let ")));
    assert!(line_matches(&chars(" \u{3000}été"), &starts("été")));
    assert!(line_matches(&chars("日本語\u{a0}"), &ends("本語")));
}

#[test]
fn contains_rewrites_every_occurrence() {
    let o = CodeOptimizer::new();
    assert_eq!(
        o.apply_replacement("let a; let b;", &rule(contains("let "), "const ")),
        "const a; const b;"
    );
    assert_eq!(o.apply_replacement("no match", &rule(contains("let "), "const ")), "no match");
    assert_eq!(o.apply_replacement("a.clone()", &rule(contains(".clone()"), "")), "a");
    assert_eq!(o.apply_replacement("ab", &rule(contains(""), "-")), "-a-b-");
}

#[test]
fn starts_with_rewrites_the_first_occurrence() {
    let o = CodeOptimizer::new();
    assert_eq!(
        o.apply_replacement("  var a; var b;", &rule(starts("var "), "let ")),
        "  let a; var b;"
    );
    assert_eq!(o.apply_replacement("var a", &rule(starts("var "), "let ")), "let a");
    assert_eq!(o.apply_replacement("x var a", &rule(starts("var "), "let ")), "x var a");
    assert_eq!(o.apply_replacement("", &rule(starts("var "), "let ")), "");
    assert_eq!(o.apply_replacement("  a", &rule(starts(""), ">")), ">  a");
}

#[test]
fn other_kinds_rewrite_the_placeholder() {
    let o = CodeOptimizer::new();
    assert_eq!(o.apply_replacement("x = 1;", &rule(ends(";"), "!")), "x = 1;");
    assert_eq!(o.apply_replacement("let x = 1;", &rule(regex(LET_ASSIGNMENT), "!")), "let x = 1;");
    assert_eq!(
        o.apply_replacement("a pattern; pattern;", &rule(ends(";"), "!")),
        "a !; !;"
    );
    assert_eq!(o.apply_replacement("patterns", &rule(regex("x"), "")), "s");
}

#[test]
fn rewrite_line_works_on_characters() {
    let out = rewrite_line(&chars("let x"), &rule(contains("let "), "const "));
    assert_eq!(out, chars("const x"));
    let out = rewrite_line(&chars("\tété"), &rule(starts("é"), "e"));
    assert_eq!(out, chars("\teté"));
    let out = rewrite_line(&chars("keep"), &rule(starts("x"), "y"));
    assert_eq!(out, chars("keep"));
}

#[test]
fn rules_of_other_kinds_report_within_an_analysis() {
    let mut config = code_optimizer_core::OptimizerConfig::new();
    config.add_custom_rule(OptimizationRule {
        name: "no-var".to_string(),
        ..rule(starts("var "), "let ")
    });
    config.add_custom_rule(OptimizationRule {
        name: "semicolon".to_string(),
        confidence: 990,
        ..rule(ends(";"), "")
    });
    config.add_custom_rule(OptimizationRule {
        name: "let-assign".to_string(),
        confidence: 100,
        ..rule(regex(LET_ASSIGNMENT), "")
    });
    let o = CodeOptimizer::with_config(config);
    let found = o.analyze_code("  var a = 1;  \nlet pattern = 2", Language::JavaScript);
    let seen: Vec<(String, usize, String)> = found
        .iter()
        .map(|f| (f.rule_name.clone(), f.line_number, f.suggested_code.clone()))
        .collect();
    assert_eq!(
        seen,
        vec![
            ("semicolon".to_string(), 1, "  var a = 1;  ".to_string()),
            ("use-const".to_string(), 2, "const pattern = 2".to_string()),
            ("no-var".to_string(), 1, "  let a = 1;  ".to_string()),
            ("let-assign".to_string(), 2, "let  = 2".to_string()),
        ]
    );
}
