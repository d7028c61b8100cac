//! How deep a change is reviewed.

use revlocal_daemon::clock::Timestamp;
use revlocal_daemon::depth::{
    escalate, is_doc_or_lockfile, requires_self_verification, security_pattern, select, DepthReason,
};
use revlocal_daemon::model::{Category, Depth, DiffStat, Finding, FindingState, RepoConfig, Severity};

fn config() -> RepoConfig {
    RepoConfig {
        deep_file_limit: 150,
        sensitive_globs: vec!["**/auth/**".to_owned()],
        deep_labels: Vec::new(),
        max_file_diff_bytes: 64_000,
        max_total_diff_bytes: 512_000,
        max_convention_bytes: 32_000,
        convention_files: Vec::new(),
        scope: Vec::new(),
        branches: vec!["main".to_owned(), "release/*".to_owned()],
        watch_branches: false,
        webhook_enabled: false,
        webhook_secret_ref: None,
        targets: Vec::new(),
        andare_project: None,
        trama_space: None,
        trama_publish: false,
    }
}


fn stat(files: u32, insertions: u64, deletions: u64) -> DiffStat {
    DiffStat {
        files,
        insertions,
        deletions,
    }
}

fn paths(n: usize) -> Vec<String> {
    (0..n).map(|i| format!("src/mod{i}.rs")).collect()
}

fn finding(severity: Severity, fingerprint: &str) -> Finding {
    Finding {
        id: 1,
        run_id: 1,
        fingerprint: fingerprint.to_owned(),
        severity,
        category: Category::Correctness,
        confidence_bits: 0.9_f64.to_bits(),
        file: Some("src/a.rs".to_owned()),
        line_start: None,
        line_end: None,
        title: "t".to_owned(),
        body: String::new(),
        failure_scenario: None,
        suggested_fix: None,
        state: FindingState::Open,
        created_at: Timestamp::at(0, 0),
    }
}

#[test]
fn depth_a_200_file_commit_selects_summary() {
    let decision = select(
        &paths(200),
        &stat(200, 400, 100),
        &vec![],
        &config(),
    );

    assert_eq!(decision.depth, Depth::Summary);
    assert!(decision
        .explain()
        .iter()
        .any(|r| r.contains("200 files changed, over the limit of 150")));
}

#[test]
fn depth_exactly_at_the_file_limit_is_not_summary() {
    let decision = select(&paths(150), &stat(150, 10, 10), &vec![], &config());

    assert_eq!(decision.depth, Depth::Standard);
}

#[test]
fn depth_over_20k_changed_lines_selects_summary() {
    let decision = select(
        &paths(3),
        &stat(3, 19_000, 1_001),
        &vec![],
        &config(),
    );

    assert_eq!(decision.depth, Depth::Summary);
    assert!(decision.explain().iter().any(|r| r.contains("20001 lines")));
}

#[test]
fn depth_docs_and_lockfiles_only_selects_summary() {
    let decision = select(
        &vec![
            "README.md".to_owned(),
            "docs/guide.rst".to_owned(),
            "Cargo.lock".to_owned(),
            "go.sum".to_owned(),
        ],
        &stat(4, 20, 5),
        &vec![],
        &config(),
    );

    assert_eq!(decision.depth, Depth::Summary);
}

#[test]
fn depth_one_code_file_among_the_docs_is_not_summary() {
    let decision = select(
        &vec!["README.md".to_owned(), "src/lib.rs".to_owned()],
        &stat(2, 20, 5),
        &vec![],
        &config(),
    );

    assert_eq!(decision.depth, Depth::Standard);
}

#[test]
fn depth_an_empty_path_list_is_not_docs_only() {
    let decision = select(&vec![], &stat(0, 0, 0), &vec![], &config());

    assert_eq!(decision.depth, Depth::Standard);
    assert_eq!(decision.reasons, [DepthReason::Default]);
}

#[test]
fn depth_extensionless_files_are_not_documentation() {
    assert!(!is_doc_or_lockfile("Dockerfile"));
    assert!(!is_doc_or_lockfile("Makefile"));
    assert!(!is_doc_or_lockfile("scripts/deploy"));
    assert!(is_doc_or_lockfile("README.md"));
    assert!(is_doc_or_lockfile("yarn.lock"));
    assert!(is_doc_or_lockfile("sub/dir/go.sum"));
}

#[test]
fn depth_a_sensitive_glob_selects_deep() {
    let decision = select(
        &vec!["src/auth/session.rs".to_owned()],
        &stat(1, 5, 2),
        &vec![],
        &config(),
    );

    assert_eq!(decision.depth, Depth::Deep);
    assert!(decision
        .explain()
        .iter()
        .any(|r| r.contains("sensitive_globs")));
}

#[test]
fn depth_builtin_security_patterns_select_deep() {
    for path in [
        "migrations/001_init.sql",
        ".github/workflows/release.yml",
        "billing/payment_intent.go",
        "lib/crypto_box.py",
        "Jenkinsfile",
        "src/oauth2/token.rs",
    ] {
        let decision = select(
            &vec![path.to_owned()],
            &stat(1, 5, 2),
            &vec![],
            &config(),
        );
        assert_eq!(decision.depth, Depth::Deep, "{path} should select deep");
    }
}

#[test]
fn depth_a_deep_label_selects_deep() {
    let config = RepoConfig {
        deep_labels: vec!["needs-security-review".to_owned()],
        ..config()
    };
    let decision = select(
        &vec!["src/lib.rs".to_owned()],
        &stat(1, 5, 2),
        &vec!["Needs-Security-Review".to_owned()],
        &config,
    );

    assert_eq!(decision.depth, Depth::Deep);
    assert!(decision.explain().iter().any(|r| r.contains("labelled")));
}

#[test]
fn depth_an_unlisted_label_does_nothing() {
    let decision = select(
        &vec!["src/lib.rs".to_owned()],
        &stat(1, 5, 2),
        &vec!["bug".to_owned()],
        &config(),
    );

    assert_eq!(decision.depth, Depth::Standard);
}

#[test]
fn depth_risk_beats_size_when_both_fire() {
    let mut files = paths(200);
    files.push("src/auth/session.rs".to_owned());

    let decision = select(
        &files,
        &stat(201, 9_000, 3_000),
        &vec![],
        &config(),
    );

    assert_eq!(decision.depth, Depth::Deep);
    assert!(decision.is_contested());
    let explained = decision.explain();
    assert!(explained.iter().any(|r| r.contains("201 files")));
    assert!(explained.iter().any(|r| r.contains("sensitive_globs")));
    assert_eq!(explained.len(), 3, "{explained:?}");
}

#[test]
fn depth_the_deep_reason_is_listed_first() {
    let mut files = paths(200);
    files.push("src/auth/session.rs".to_owned());

    let decision = select(&files, &stat(201, 10, 10), &vec![], &config());

    assert_eq!(decision.reasons[0].implies(), Depth::Deep);
}

#[test]
fn depth_an_ordinary_change_is_standard_and_uncontested() {
    let decision = select(
        &vec!["src/lib.rs".to_owned()],
        &stat(1, 30, 4),
        &vec![],
        &config(),
    );

    assert_eq!(decision.depth, Depth::Standard);
    assert_eq!(decision.reasons, [DepthReason::Default]);
    assert!(!decision.is_contested());
}

#[test]
fn depth_invalid_sensitive_globs_escalate_rather_than_disappear() {
    let config = RepoConfig {
        sensitive_globs: vec!["***/[".to_owned()],
        ..config()
    };
    let decision = select(&vec!["src/lib.rs".to_owned()], &stat(1, 5, 2), &vec![], &config);

    assert_eq!(decision.depth, Depth::Deep);
    assert!(decision
        .reasons
        .contains(&DepthReason::SensitiveGlobsInvalid));
}

#[test]
fn depth_globs_that_are_nested_too_deeply_escalate() {
    for depth in [400, 100_000] {
        let odd = RepoConfig {
            sensitive_globs: vec![format!("{}a{}", "{".repeat(depth), "}".repeat(depth))],
            ..config()
        };
        let decision = select(&vec!["src/a.rs".to_owned()], &stat(1, 1, 1), &vec![], &odd);
        assert_eq!(decision.depth, Depth::Deep);
    }
}

#[test]
fn depth_a_critical_finding_escalates_a_standard_run() {
    let escalation = escalate(Depth::Standard, &vec![finding(Severity::Critical, "abc")])
        .expect("critical escalates");

    assert_eq!(escalation.depth, Depth::Deep);
    assert!(escalation.explain()[0].contains("abc"));
}

#[test]
fn depth_a_high_finding_escalates_a_standard_run() {
    assert_eq!(
        escalate(Depth::Standard, &vec![finding(Severity::High, "abc")])
            .expect("high escalates")
            .depth,
        Depth::Deep
    );
}

#[test]
fn depth_medium_and_below_do_not_escalate() {
    for severity in [Severity::Medium, Severity::Low, Severity::Info] {
        assert!(
            escalate(Depth::Standard, &vec![finding(severity, "abc")]).is_none(),
            "{severity:?} should not escalate"
        );
    }
}

#[test]
fn depth_a_deep_run_never_escalates_again() {
    assert!(escalate(Depth::Deep, &vec![finding(Severity::Critical, "abc")]).is_none());
}

#[test]
fn depth_a_summary_run_does_not_escalate() {
    assert!(escalate(Depth::Summary, &vec![finding(Severity::Critical, "abc")]).is_none());
}

#[test]
fn depth_a_clean_standard_run_does_not_escalate() {
    assert!(escalate(Depth::Standard, &vec![]).is_none());
}

#[test]
fn depth_escalation_names_the_worst_finding() {
    let escalation = escalate(
        Depth::Standard,
        &vec![
            finding(Severity::High, "high-one"),
            finding(Severity::Critical, "critical-one"),
            finding(Severity::High, "high-two"),
        ],
    )
    .expect("escalates");

    assert!(escalation.explain()[0].contains("critical-one"));
}

#[test]
fn depth_ordering_is_summary_standard_deep() {
    assert!(Depth::Summary < Depth::Standard);
    assert!(Depth::Standard < Depth::Deep);
}

#[test]
fn depth_only_deep_adds_the_self_verification_instruction() {
    assert!(requires_self_verification(Depth::Deep));
    assert!(!requires_self_verification(Depth::Standard));
    assert!(!requires_self_verification(Depth::Summary));
}

#[test]
fn depth_every_decision_carries_at_least_one_reason() {
    for decision in [
        select(&vec![], &stat(0, 0, 0), &vec![], &config()),
        select(&paths(300), &stat(300, 1, 1), &vec![], &config()),
        select(
            &vec!["a/auth/b.rs".to_owned()],
            &stat(1, 1, 1),
            &vec![],
            &config(),
        ),
    ] {
        assert!(!decision.reasons.is_empty());
        assert!(decision.explain().iter().all(|r| !r.is_empty()));
    }
}

#[test]
fn depth_equally_bad_findings_escalate_by_the_first_of_them() {
    let decision = escalate(
        Depth::Standard,
        &vec![finding(Severity::Critical, "first"), finding(Severity::Critical, "second")],
    )
    .expect("escalates");

    assert!(decision.explain()[0].contains("first"));
    assert_eq!(decision.reasons.len(), 1);
}

#[test]
fn depth_every_ground_is_put_in_words() {
    let mut files = paths(151);
    files.push("billing/payment.rs".to_owned());
    let decision = select(
        &files,
        &stat(152, 20_000, 1),
        &vec!["deep".to_owned()],
        &RepoConfig { deep_labels: vec!["deep".to_owned()], ..config() },
    );

    assert_eq!(decision.depth, Depth::Deep);
    assert_eq!(
        decision.explain(),
        [
            "`billing/payment.rs` looks security-relevant (matched `payment`)",
            "labelled `deep`",
            "152 files changed, over the limit of 150",
            "20001 lines changed, over the limit of 20000",
        ]
    );
}

#[test]
fn depth_security_patterns_are_looked_for_in_any_case() {
    assert_eq!(security_pattern("src/OAuth2/Token.rs"), security_pattern("src/oauth2/token.rs"));
    assert!(security_pattern("src/lib.rs").is_none());
}

#[test]
fn depth_only_an_exact_path_makes_a_glob_sensitive() {
    let decision = select(&vec!["src/author.rs".to_owned()], &stat(1, 1, 1), &vec![], &config());

    assert!(!decision.reasons.contains(&DepthReason::SensitivePath { path: "src/author.rs".to_owned() }));
}
