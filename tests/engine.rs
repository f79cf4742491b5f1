use loq::baseline::{generate_baseline, run_baseline, upsert_exemption};
use loq::config::{Config, ConfigError, Exemption, Rule};
use loq::glob::{chars_of, glob_match, is_well_formed_pattern};
use loq::matcher::{resolve, MatchBy};
use loq::normalize::normalize_path;
use loq::output::violation_records;
use loq::report::{aggregate, check_entry, classify, run_check, skipped, Entry, FindingKind, Measure};

fn rule(pattern: &str, limit: usize) -> Rule {
    Rule { pattern: pattern.to_string(), limit }
}

fn exemption(path: &str, limit: usize) -> Exemption {
    Exemption { path: path.to_string(), limit }
}

fn lines(path: &str, n: usize) -> Entry {
    Entry { path: path.to_string(), measure: Measure::Lines(n) }
}

fn config(default_limit: usize, rules: Vec<Rule>, exemptions: Vec<Exemption>) -> Config {
    Config::new(default_limit, rules, exemptions).unwrap()
}

fn limit_and_violation(kind: &FindingKind) -> (usize, bool) {
    match kind {
        FindingKind::Violation { limit, .. } => (*limit, true),
        FindingKind::Compliant { limit, .. } => (*limit, false),
        FindingKind::Skipped { .. } => panic!("unexpected skip"),
    }
}

#[test]
fn default_limit_scenario_two_files() {
    let c = config(300, vec![], vec![]);
    let report = run_check(&c, &vec![lines("a.go", 250), lines("b.go", 310)]);
    assert_eq!(report.summary.total, 2);
    assert_eq!(report.summary.violations, 1);
    assert_eq!(report.findings[0].path, "a.go");
    assert!(matches!(report.findings[0].kind, FindingKind::Compliant { limit: 300, matched_by: MatchBy::Default }));
    assert_eq!(report.findings[1].path, "b.go");
    assert!(matches!(report.findings[1].kind, FindingKind::Violation { limit: 300, matched_by: MatchBy::Default }));
    assert_eq!(report.findings[1].actual, 310);
}

#[test]
fn first_declared_rule_scenario() {
    let c = config(300, vec![rule("gen/**", 1000), rule("*.go", 300)], vec![]);
    let f = check_entry(&c, &lines("gen/big.go", 900));
    match f.kind {
        FindingKind::Compliant { limit, matched_by: MatchBy::Rule { pattern } } => {
            assert_eq!(limit, 1000);
            assert_eq!(pattern, "gen/**");
        }
        other => panic!("unexpected {:?}", other),
    }
}

#[test]
fn baseline_scenario_legacy_file() {
    let c = config(300, vec![], vec![]);
    let entries = vec![lines("legacy.py", 500)];
    let b = generate_baseline(&c, &entries);
    assert_eq!(b.default_limit, 300);
    assert_eq!(b.exemptions.len(), 1);
    assert_eq!(b.exemptions[0].path, "legacy.py");
    assert_eq!(b.exemptions[0].limit, 500);
    let f = check_entry(&b, &lines("legacy.py", 500));
    assert!(matches!(f.kind, FindingKind::Compliant { limit: 500, matched_by: MatchBy::Exemption }));
}

#[test]
fn unmatched_path_falls_to_default() {
    let c = config(120, vec![rule("*.rs", 50)], vec![exemption("a.py", 900)]);
    let r = resolve(&c, &"src/b.py".to_string());
    assert_eq!(r.limit, 120);
    assert!(matches!(r.matched_by, MatchBy::Default));
}

#[test]
fn exemption_dominates_rules() {
    let c = config(100, vec![rule("**", 10)], vec![exemption("src/big.rs", 700)]);
    let r = resolve(&c, &"src/big.rs".to_string());
    assert_eq!(r.limit, 700);
    assert!(matches!(r.matched_by, MatchBy::Exemption));
    let other = resolve(&c, &"src/small.rs".to_string());
    assert_eq!(other.limit, 10);
}

#[test]
fn first_match_wins_over_later_match() {
    let c = config(100, vec![rule("*.go", 300), rule("*.go", 50)], vec![]);
    let r = resolve(&c, &"main.go".to_string());
    assert_eq!(r.limit, 300);
    let reversed = config(100, vec![rule("*.go", 50), rule("*.go", 300)], vec![]);
    assert_eq!(resolve(&reversed, &"main.go".to_string()).limit, 50);
}

#[test]
fn equal_count_is_compliant() {
    let at = classify("x.rs".to_string(), 300, 300, MatchBy::Default);
    assert_eq!(limit_and_violation(&at.kind), (300, false));
    let over = classify("x.rs".to_string(), 301, 300, MatchBy::Default);
    assert_eq!(limit_and_violation(&over.kind), (300, true));
    assert_eq!(over.actual, 301);
    assert_eq!(over.path, "x.rs");
    let zero = classify("e.rs".to_string(), 0, 1, MatchBy::Default);
    assert_eq!(limit_and_violation(&zero.kind), (1, false));
}

#[test]
fn aggregate_counts_total_and_violations() {
    let fs = vec![
        classify("a".to_string(), 5, 3, MatchBy::Default),
        skipped("b".to_string(), "binary".to_string()),
        classify("c".to_string(), 3, 3, MatchBy::Default),
        classify("d".to_string(), 9, 3, MatchBy::Exemption),
    ];
    let r = aggregate(fs);
    assert_eq!(r.summary.total, 4);
    assert_eq!(r.summary.violations, 2);
    let paths: Vec<&str> = r.findings.iter().map(|f| f.path.as_str()).collect();
    assert_eq!(paths, vec!["a", "b", "c", "d"]);
    let empty = aggregate(vec![]);
    assert_eq!(empty.summary.total, 0);
    assert_eq!(empty.summary.violations, 0);
}

#[test]
fn skipped_entries_count_in_total_only() {
    let c = config(1, vec![], vec![]);
    let entries = vec![
        Entry { path: "img.png".to_string(), measure: Measure::Skipped("binary".to_string()) },
        lines("big.txt", 2),
    ];
    let r = run_check(&c, &entries);
    assert_eq!(r.summary.total, 2);
    assert_eq!(r.summary.violations, 1);
    match &r.findings[0].kind {
        FindingKind::Skipped { reason } => assert_eq!(reason, "binary"),
        other => panic!("unexpected {:?}", other),
    }
    assert_eq!(r.findings[0].actual, 0);
}

#[test]
fn baseline_twice_is_baseline_once() {
    let c = config(100, vec![rule("gen/**", 1000)], vec![exemption("old.rs", 150)]);
    let entries = vec![lines("a.rs", 90), lines("b.rs", 400), lines("old.rs", 200), lines("gen/x.rs", 1200)];
    let once = generate_baseline(&c, &entries);
    let twice = generate_baseline(&once, &entries);
    let view = |c: &Config| -> Vec<(String, usize)> {
        c.exemptions.iter().map(|e| (e.path.clone(), e.limit)).collect()
    };
    assert_eq!(view(&once), vec![("old.rs".to_string(), 200), ("b.rs".to_string(), 400), ("gen/x.rs".to_string(), 1200)]);
    assert_eq!(view(&twice), view(&once));
    assert_eq!(twice.default_limit, once.default_limit);
    assert_eq!(twice.rules.len(), 1);
}

#[test]
fn baseline_then_check_has_no_violations() {
    let c = config(10, vec![rule("*.md", 5)], vec![]);
    let entries = vec![lines("README.md", 80), lines("a.rs", 11), lines("b.rs", 3), lines("docs/x.md", 7)];
    let before = run_check(&c, &entries);
    assert_eq!(before.summary.violations, 2);
    let b = run_baseline(&c, &entries);
    let after = run_check(&b, &entries);
    assert_eq!(after.summary.violations, 0);
    assert_eq!(after.summary.total, 4);
}

#[test]
fn baseline_keeps_compliant_files_out() {
    let c = config(300, vec![], vec![]);
    let b = generate_baseline(&c, &vec![lines("small.rs", 300), lines("x.rs", 1)]);
    assert!(b.exemptions.is_empty());
}

#[test]
fn findings_keep_entry_order() {
    let c = config(10, vec![], vec![]);
    let entries = vec![lines("z.rs", 1), lines("a.rs", 20), lines("m.rs", 5)];
    let r = run_check(&c, &entries);
    let paths: Vec<&str> = r.findings.iter().map(|f| f.path.as_str()).collect();
    assert_eq!(paths, vec!["z.rs", "a.rs", "m.rs"]);
}

#[test]
fn glob_single_star_stays_in_segment() {
    assert!(glob_match("*.go", "main.go"));
    assert!(!glob_match("*.go", "cmd/main.go"));
    assert!(glob_match("src/*.rs", "src/lib.rs"));
    assert!(!glob_match("src/*.rs", "src/a/lib.rs"));
}

#[test]
fn glob_double_star_crosses_segments() {
    assert!(glob_match("gen/**", "gen/big.go"));
    assert!(glob_match("gen/**", "gen/a/b/c.go"));
    assert!(glob_match("**/*.go", "a/b/c.go"));
    assert!(glob_match("**/*.go", "c.go"));
    assert!(glob_match("**", "anything/at/all"));
    assert!(!glob_match("gen/**", "other/gen/x"));
}

#[test]
fn glob_is_anchored_and_case_sensitive() {
    assert!(!glob_match("main.go", "cmd/main.go"));
    assert!(!glob_match("main", "main.go"));
    assert!(glob_match("main.go", "main.go"));
    assert!(!glob_match("*.GO", "main.go"));
    assert!(glob_match("?.rs", "a.rs"));
    assert!(!glob_match("?.rs", "ab.rs"));
    assert!(!glob_match("a?b", "a/b"));
    assert!(glob_match("", ""));
    assert!(!glob_match("", "a"));
}

#[test]
fn pattern_well_formedness() {
    assert!(is_well_formed_pattern("**/*.rs"));
    assert!(!is_well_formed_pattern(""));
    assert!(!is_well_formed_pattern("a/***"));
    assert_eq!(chars_of("héllo"), vec!['h', 'é', 'l', 'l', 'o']);
}

#[test]
fn config_rejects_zero_limits() {
    assert_eq!(Config::new(0, vec![], vec![]).unwrap_err(), ConfigError::ZeroLimit);
    assert_eq!(Config::new(5, vec![rule("*", 0)], vec![]).unwrap_err(), ConfigError::ZeroLimit);
    assert_eq!(Config::new(5, vec![], vec![exemption("a", 0)]).unwrap_err(), ConfigError::ZeroLimit);
    assert_eq!(Config::new(5, vec![rule("", 0)], vec![]).unwrap_err(), ConfigError::ZeroLimit);
}

#[test]
fn config_rejects_malformed_patterns() {
    assert_eq!(Config::new(5, vec![rule("", 3)], vec![]).unwrap_err(), ConfigError::MalformedPattern);
    assert_eq!(Config::new(5, vec![rule("*.rs", 3), rule("***", 3)], vec![]).unwrap_err(), ConfigError::MalformedPattern);
}

#[test]
fn config_rejects_conflicting_exemptions() {
    let err = Config::new(5, vec![], vec![exemption("a", 3), exemption("b", 4), exemption("a", 7)]).unwrap_err();
    assert_eq!(err, ConfigError::ConflictingExemption);
    let same = Config::new(5, vec![], vec![exemption("a", 3), exemption("a", 3)]).unwrap();
    assert_eq!(same.exemptions.len(), 2);
    assert_eq!(resolve(&same, &"a".to_string()).limit, 3);
}

#[test]
fn upsert_overwrites_or_appends() {
    let mut ex = vec![exemption("a", 1), exemption("b", 2)];
    upsert_exemption(&mut ex, &"b".to_string(), 9);
    assert_eq!(ex.len(), 2);
    assert_eq!(ex[1].limit, 9);
    upsert_exemption(&mut ex, &"c".to_string(), 4);
    assert_eq!(ex.len(), 3);
    assert_eq!(ex[2].path, "c");
    assert_eq!(ex[2].limit, 4);
}

#[test]
fn violation_rows_name_their_rule() {
    let c = config(10, vec![rule("*.md", 5)], vec![exemption("x.rs", 12)]);
    let entries = vec![lines("a.md", 6), lines("b.rs", 11), lines("ok.rs", 2), lines("x.rs", 13)];
    let rows = violation_records(&run_check(&c, &entries));
    let got: Vec<(String, usize, usize, String)> =
        rows.into_iter().map(|r| (r.path, r.lines, r.max_lines, r.rule)).collect();
    assert_eq!(
        got,
        vec![
            ("a.md".to_string(), 6, 5, "*.md".to_string()),
            ("b.rs".to_string(), 11, 10, "default".to_string()),
            ("x.rs".to_string(), 13, 12, "baseline".to_string()),
        ]
    );
}

#[test]
fn paths_normalize_to_forward_slashes() {
    assert_eq!(normalize_path("./src/lib.rs"), "src/lib.rs");
    assert_eq!(normalize_path(".\\src\\main.rs"), "src/main.rs");
    assert_eq!(normalize_path("a\\b/c.rs"), "a/b/c.rs");
    assert_eq!(normalize_path(".hidden/x"), ".hidden/x");
    assert_eq!(normalize_path(""), "");
}

#[test]
fn baseline_sets_every_repeated_exemption() {
    let c = config(300, vec![], vec![exemption("a", 3), exemption("a", 3)]);
    let b = generate_baseline(&c, &vec![lines("a", 10)]);
    let got: Vec<(String, usize)> = b.exemptions.iter().map(|e| (e.path.clone(), e.limit)).collect();
    assert_eq!(got, vec![("a".to_string(), 10), ("a".to_string(), 10)]);
    let reloaded = Config::new(b.default_limit, b.rules, b.exemptions);
    assert!(reloaded.is_ok());
}

#[test]
fn upsert_sets_all_entries_of_a_path() {
    let mut ex = vec![exemption("a", 1), exemption("b", 2), exemption("a", 1)];
    upsert_exemption(&mut ex, &"a".to_string(), 5);
    let got: Vec<(String, usize)> = ex.iter().map(|e| (e.path.clone(), e.limit)).collect();
    assert_eq!(got, vec![("a".to_string(), 5), ("b".to_string(), 2), ("a".to_string(), 5)]);
}

#[test]
fn config_rejects_unnormalized_exemption_paths() {
    assert_eq!(Config::new(5, vec![], vec![exemption("./a.rs", 3)]).unwrap_err(), ConfigError::UnnormalizedPath);
    assert_eq!(Config::new(5, vec![], vec![exemption("src\\a.rs", 3)]).unwrap_err(), ConfigError::UnnormalizedPath);
    assert!(Config::new(5, vec![], vec![exemption("src/a.rs", 3)]).is_ok());
    assert_eq!(
        Config::new(5, vec![], vec![exemption("./a.rs", 3), exemption("b", 1), exemption("b", 2)]).unwrap_err(),
        ConfigError::ConflictingExemption
    );
}
