use code_optimizer_core::config::parse_directive;
use code_optimizer_core::{Language, OptimizationRule, OptimizerConfig, PatternType, Severity};

fn chars(s: &str) -> Vec<char> {
    s.chars().collect()
}

fn directive(line: &str) -> Option<(String, bool)> {
    parse_directive(&chars(line))
}

#[test]
fn new_config_changes_nothing() {
    let config = OptimizerConfig::new();
    assert!(config.enabled_rules.is_empty());
    assert_eq!(config.enabled_rules.len(), 0);
    assert!(config.custom_rules.is_empty());
    assert_eq!(config.severity_filter, vec![Severity::Info, Severity::Warning, Severity::Error]);
    assert!(!config.severity_filter.contains(&Severity::Custom("Style".to_string())));
}

#[test]
fn config_string_sets_the_named_rules() {
    let config =
        OptimizerConfig::from_config_string("disable_rule: use-const\nenable_rule: arrow-function\n");
    assert_eq!(config.enabled_rules.get("use-const"), Some(&false));
    assert_eq!(config.enabled_rules.get("arrow-function"), Some(&true));
    assert_eq!(config.enabled_rules.len(), 2);
    assert!(config.custom_rules.is_empty());
    assert_eq!(config.severity_filter, vec![Severity::Info, Severity::Warning, Severity::Error]);
}

#[test]
fn config_string_passes_over_other_lines() {
    let text = "# a comment\n\n[section]\ndisable_rule: use-const\nrule = off\n  enable  \nenable_rule:arrow-function\ndisable_rule\nDisable_rule: x\n";
    let config = OptimizerConfig::from_config_string(text);
    assert_eq!(config.enabled_rules.len(), 2);
    assert_eq!(config.enabled_rules.get("use-const"), Some(&false));
    assert_eq!(config.enabled_rules.get("arrow-function"), Some(&true));
    assert_eq!(config.enabled_rules.get("x"), None);
}

#[test]
fn config_string_with_indented_lines() {
    let config_str = r#"
            disable_rule: use-const
            enable_rule: arrow-function
        "#;
    let config = OptimizerConfig::from_config_string(config_str);
    assert_eq!(config.enabled_rules.len(), 2);
    assert_eq!(config.enabled_rules.get("use-const"), Some(&false));
    assert_eq!(config.enabled_rules.get("arrow-function"), Some(&true));
}

#[test]
fn later_directive_counts() {
    let config = OptimizerConfig::from_config_string(
        "disable_rule: a\nenable_rule: a\nenable_rule: b\r\ndisable_rule: b",
    );
    assert_eq!(config.enabled_rules.len(), 2);
    assert_eq!(config.enabled_rules.get("a"), Some(&true));
    assert_eq!(config.enabled_rules.get("b"), Some(&false));
}

#[test]
fn empty_config_string_gives_the_default() {
    let config = OptimizerConfig::from_config_string("");
    assert!(config.enabled_rules.is_empty());
    assert!(config.custom_rules.is_empty());
    assert_eq!(config.severity_filter.len(), 3);
}

#[test]
fn directive_examples() {
    assert_eq!(directive("disable_rule: use-const"), Some(("use-const".to_string(), false)));
    assert_eq!(directive("enable_rule: use-const"), Some(("use-const".to_string(), true)));
    assert_eq!(directive("  disable_rule:   a b \t"), Some(("a b".to_string(), false)));
    assert_eq!(directive("enable_rule:x"), Some(("x".to_string(), true)));
    assert_eq!(directive("enable_rule:"), Some(("".to_string(), true)));
    assert_eq!(directive("disable_rule:   "), Some(("".to_string(), false)));
    assert_eq!(directive("disable_rule"), None);
    assert_eq!(directive("enable_rule use-const"), None);
    assert_eq!(directive("x disable_rule: a"), None);
    assert_eq!(directive(""), None);
    assert_eq!(directive("   "), None);
    assert_eq!(directive("ENABLE_RULE: a"), None);
}

#[test]
fn directive_name_is_what_follows_the_prefix() {
    assert_eq!(
        directive("disable_rule: a disable_rule: b"),
        Some(("a disable_rule: b".to_string(), false))
    );
    assert_eq!(
        directive("enable_rule: disable_rule: b"),
        Some(("disable_rule: b".to_string(), true))
    );
    assert_eq!(directive("disable_rule:enable_rule:"), Some(("enable_rule:".to_string(), false)));
}

#[test]
fn add_custom_rule_keeps_the_order() {
    let mut config = OptimizerConfig::new();
    for name in ["one", "two", "three"] {
        config.add_custom_rule(OptimizationRule {
            name: name.to_string(),
            language: Language::Python,
            pattern_type: PatternType::EndsWith(":".to_string()),
            replacement: "".to_string(),
            explanation: "".to_string(),
            severity: Severity::Error,
            confidence: 10,
            enabled: false,
        });
    }
    let names: Vec<&str> = config.custom_rules.iter().map(|r| r.name.as_str()).collect();
    assert_eq!(names, vec!["one", "two", "three"]);
    assert!(config.enabled_rules.is_empty());
    assert_eq!(config.severity_filter.len(), 3);
}

#[test]
fn rule_confidence_is_checked_on_request() {
    let mut rule = OptimizationRule {
        name: "r".to_string(),
        language: Language::Rust,
        pattern_type: PatternType::Contains("a".to_string()),
        replacement: "b".to_string(),
        explanation: "c".to_string(),
        severity: Severity::Info,
        confidence: 1000,
        enabled: true,
    };
    assert!(rule.is_well_formed());
    rule.confidence = 0;
    assert!(rule.is_well_formed());
    rule.confidence = 1001;
    assert!(!rule.is_well_formed());
    let copy = rule.clone();
    assert_eq!(copy.name, "r");
    assert_eq!(copy.language, Language::Rust);
    assert_eq!(copy.replacement, "b");
    assert_eq!(copy.explanation, "c");
    assert_eq!(copy.severity, Severity::Info);
    assert_eq!(copy.confidence, 1001);
    assert!(copy.enabled);
    assert!(matches!(copy.pattern_type, PatternType::Contains(ref t) if t == "a"));
}

#[test]
fn severities_are_equal_by_tag_and_label() {
    assert_eq!(Severity::Info, Severity::Info);
    assert_eq!(Severity::Warning, Severity::Warning);
    assert_eq!(Severity::Error, Severity::Error);
    assert_ne!(Severity::Info, Severity::Warning);
    assert_ne!(Severity::Warning, Severity::Error);
    assert_ne!(Severity::Error, Severity::Info);
    assert_eq!(Severity::Custom("a".to_string()), Severity::Custom("a".to_string()));
    assert_ne!(Severity::Custom("a".to_string()), Severity::Custom("b".to_string()));
    assert_ne!(Severity::Custom("Info".to_string()), Severity::Info);
    assert_ne!(Severity::Info, Severity::Custom("".to_string()));
    assert_eq!(Severity::Custom("a".to_string()).clone(), Severity::Custom("a".to_string()));
    assert_eq!(Severity::Warning.clone(), Severity::Warning);
}
