//! What becomes of an engine's findings.

use revlocal_daemon::clock::Timestamp;
use revlocal_daemon::model::{Category, Depth, FindingState, Severity};
use revlocal_daemon::normalize::{
    allow_out_of_diff_findings, inline_category_for_out_of_diff, normalize, DroppedFinding, NormalizationNote,
    NormalizeContext, RawFinding, Suppression, UNKNOWN_SEVERITY,
};

fn fingerprint(repo: &str, file: Option<&str>, category: Category, title: &str) -> String {
    format!("{repo}:{}:{}:{title}", file.unwrap_or(""), category.as_str())
}

fn raw(severity: Severity, file: Option<&str>, title: &str) -> RawFinding {
    RawFinding {
        severity,
        category: Category::Correctness,
        confidence_bits: Some(0.9_f64.to_bits()),
        file: file.map(str::to_owned),
        line_start: Some(3),
        line_end: Some(4),
        title: title.to_owned(),
        body: "why".to_owned(),
        failure_scenario: Some("inputs".to_owned()),
        suggested_fix: None,
        fingerprint: fingerprint("rev-local", file, Category::Correctness, title),
    }
}

fn context<'a>(
    changed: &'a Vec<String>,
    depth: Depth,
    suppressions: &'a Vec<Suppression>,
    published: &'a Vec<String>,
) -> NormalizeContext<'a> {
    NormalizeContext {
        run_id: 1,
        changed_paths: changed,
        depth,
        suppressions,
        published_fingerprints: published,
        now: Timestamp::at(0, 0),
    }
}

fn suppression(fingerprint: Option<&str>, glob: Option<&str>) -> Suppression {
    Suppression {
        fingerprint: fingerprint.map(str::to_owned),
        glob: glob.map(str::to_owned),
        reason: Some("known, accepted".to_owned()),
    }
}

/// A finding that was dropped, with what its document reads as once its severity is mended.
fn dropped(index: usize, violations: &[&str], raw: &str) -> DroppedFinding {
    let mut finding = DroppedFinding {
        index,
        violations: violations.iter().map(|v| (*v).to_owned()).collect(),
        raw: raw.to_owned(),
        repaired: None,
    };
    finding.repaired = finding.repaired_document().and_then(|document| read(&document));
    finding
}

fn read(document: &str) -> Option<RawFinding> {
    let value: serde_json::Value = serde_json::from_str(document).ok()?;
    let text = |key: &str| value.get(key).and_then(|v| v.as_str()).map(str::to_owned);
    assert_eq!(text("severity").as_deref(), Some("medium"));
    let title = text("title")?;
    let body = text("body")?;
    Some(RawFinding {
        severity: Severity::Medium,
        category: Category::Correctness,
        confidence_bits: None,
        file: text("file"),
        line_start: None,
        line_end: None,
        fingerprint: fingerprint("rev-local", None, Category::Correctness, &title),
        title,
        body,
        failure_scenario: None,
        suggested_fix: None,
    })
}


#[test]
fn normalize_an_out_of_diff_finding_is_retained_and_capped() {
    let changed = vec!["src/a.rs".to_owned()];
    let result = normalize(
        &vec![raw(Severity::Critical, Some("src/elsewhere.rs"), "boom")],
        vec![],
        &context(&changed, Depth::Standard, &vec![], &vec![]),
    );

    let finding = &result.findings[0];
    assert_eq!(finding.finding.severity, Severity::Medium);
    assert!(finding.out_of_diff);
    assert!(finding.is_publishable(), "retained, not dropped");
    assert_eq!(result.findings.len(), 1);
    assert!(finding.notes.contains(&NormalizationNote::OutOfDiff {
        file: "src/elsewhere.rs".to_owned(),
        capped: true,
    }));
}

#[test]
fn normalize_a_deep_run_keeps_out_of_diff_severity() {
    let changed = vec!["src/a.rs".to_owned()];
    let result = normalize(
        &vec![raw(Severity::Critical, Some("src/elsewhere.rs"), "boom")],
        vec![],
        &context(&changed, Depth::Deep, &vec![], &vec![]),
    );

    assert_eq!(result.findings[0].finding.severity, Severity::Critical);
    assert!(result.findings[0].out_of_diff);
    assert!(result.findings[0]
        .notes
        .contains(&NormalizationNote::OutOfDiff {
            file: "src/elsewhere.rs".to_owned(),
            capped: false,
        }));
}

#[test]
fn normalize_an_out_of_diff_finding_below_the_ceiling_is_not_raised() {
    let changed = vec!["src/a.rs".to_owned()];
    let result = normalize(
        &vec![raw(Severity::Low, Some("src/elsewhere.rs"), "small")],
        vec![],
        &context(&changed, Depth::Standard, &vec![], &vec![]),
    );

    assert_eq!(result.findings[0].finding.severity, Severity::Low);
}

#[test]
fn normalize_an_in_diff_finding_keeps_its_severity() {
    let changed = vec!["src/a.rs".to_owned()];
    let result = normalize(
        &vec![raw(Severity::Critical, Some("src/a.rs"), "boom")],
        vec![],
        &context(&changed, Depth::Standard, &vec![], &vec![]),
    );

    assert_eq!(result.findings[0].finding.severity, Severity::Critical);
    assert!(!result.findings[0].out_of_diff);
    assert!(result.findings[0].notes.is_empty());
}

#[test]
fn normalize_a_fileless_finding_is_not_out_of_diff() {
    let changed = vec!["src/a.rs".to_owned()];
    let result = normalize(
        &vec![raw(Severity::High, None, "no tests anywhere")],
        vec![],
        &context(&changed, Depth::Standard, &vec![], &vec![]),
    );

    assert!(!result.findings[0].out_of_diff);
    assert_eq!(result.findings[0].finding.severity, Severity::High);
}

#[test]
fn normalize_out_of_diff_publishes_inline_as_a_non_anchored_category() {
    assert_eq!(inline_category_for_out_of_diff(), Category::Other);
    assert!(!allow_out_of_diff_findings(Depth::Standard));
    assert!(!allow_out_of_diff_findings(Depth::Summary));
    assert!(allow_out_of_diff_findings(Depth::Deep));
}

#[test]
fn normalize_an_unknown_severity_is_salvaged_as_medium() {
    let result = normalize(
        &vec![],
        vec![dropped(
            0,
            &["/severity: \"warning\" is not one of the allowed values"],
            r#"{"severity": "warning", "category": "correctness", "title": "off by one", "body": "why"}"#,
        )],
        &context(&vec![], Depth::Standard, &vec![], &vec![]),
    );

    assert_eq!(result.findings.len(), 1, "salvaged, not dropped");
    assert!(result.still_dropped.is_empty());
    assert_eq!(result.findings[0].finding.severity, Severity::Medium);
    assert_eq!(result.findings[0].finding.title, "off by one");
    assert!(result.findings[0].is_publishable());
    assert!(result.findings[0]
        .notes
        .contains(&NormalizationNote::SeveritySalvaged {
            reported: "warning".to_owned()
        }));
}

#[test]
fn normalize_the_unknown_severity_default_is_medium() {
    assert_eq!(UNKNOWN_SEVERITY, Severity::Medium);
    assert!(UNKNOWN_SEVERITY > Severity::Low);
}

#[test]
fn normalize_a_finding_with_other_violations_stays_dropped() {
    let result = normalize(
        &vec![],
        vec![dropped(
            0,
            &[
                "/severity: \"warning\" is not one of the allowed values",
                "/title: is a required property",
                ],
            r#"{"severity": "warning", "category": "correctness", "body": "b"}"#,
        )],
        &context(&vec![], Depth::Standard, &vec![], &vec![]),
    );

    assert!(result.findings.is_empty());
    assert_eq!(result.still_dropped.len(), 1);
}

#[test]
fn normalize_a_non_severity_violation_stays_dropped() {
    let result = normalize(
        &vec![],
        vec![dropped(
            0,
            &["/title: is a required property"],
            r#"{"severity": "high", "category": "correctness", "body": "b"}"#,
        )],
        &context(&vec![], Depth::Standard, &vec![], &vec![]),
    );

    assert!(result.findings.is_empty());
    assert_eq!(result.still_dropped.len(), 1);
}

#[test]
fn normalize_an_unsalvageable_document_stays_dropped() {
    let result = normalize(
        &vec![],
        vec![dropped(
            0,
            &["/severity: 7 is not of type \"string\""],
            r#"{"severity": 7, "category": "correctness", "title": "t"}"#,
        )],
        &context(&vec![], Depth::Standard, &vec![], &vec![]),
    );

    assert!(result.findings.is_empty());
    assert_eq!(result.still_dropped.len(), 1);
}

#[test]
fn normalize_salvages_what_the_real_validator_actually_drops() {
    // A document with one finding of an unknown severity, as it comes out of validation: no
    // finding is accepted, and the one is dropped with what its schema says of it.
    let accepted: Vec<RawFinding> = Vec::new();
    let rejected = vec![dropped(
        0,
        &[r#"/severity: "warning" is not one of "critical", "high", "medium", "low" or "info""#],
        r#"{"body":"why","category":"correctness","severity":"warning","title":"off by one"}"#,
    )];
    assert_eq!(accepted.len(), 0, "the schema rejects it");
    assert_eq!(rejected.len(), 1);
    let violations = rejected[0].violations.clone();

    let result = normalize(&accepted, rejected, &context(&vec![], Depth::Standard, &vec![], &vec![]));

    assert_eq!(
        result.findings.len(),
        1,
        "salvage did not fire on the real violation text: {violations:?}"
    );
    assert_eq!(result.findings[0].finding.severity, Severity::Medium);
    assert_eq!(result.findings[0].finding.title, "off by one");
}

#[test]
fn normalize_leaves_a_valid_document_alone() {
    // A document that is valid comes out of validation with its finding and nothing dropped.
    let accepted = vec![RawFinding {
        severity: Severity::High,
        category: Category::Correctness,
        confidence_bits: None,
        file: Some("src/a.rs".to_owned()),
        line_start: None,
        line_end: None,
        title: "real".to_owned(),
        body: "why".to_owned(),
        failure_scenario: None,
        suggested_fix: None,
        fingerprint: fingerprint("rev-local", Some("src/a.rs"), Category::Correctness, "real"),
    }];
    let rejected: Vec<DroppedFinding> = Vec::new();
    assert!(rejected.is_empty());

    let changed = vec!["src/a.rs".to_owned()];
    let result = normalize(&accepted, rejected, &context(&changed, Depth::Standard, &vec![], &vec![]));

    assert_eq!(result.publishable().len(), 1);
    assert_eq!(result.findings[0].finding.severity, Severity::High);
    assert!(result.findings[0].notes.is_empty());
}

#[test]
fn normalize_a_suppressed_fingerprint_never_reaches_the_publish_plan() {
    let changed = vec!["src/a.rs".to_owned()];
    let print = fingerprint("rev-local", Some("src/a.rs"), Category::Correctness, "boom");
    let suppressions = vec![suppression(Some(&print), None)];

    let result = normalize(
        &vec![raw(Severity::Critical, Some("src/a.rs"), "boom")],
        vec![],
        &context(&changed, Depth::Standard, &suppressions, &vec![]),
    );

    assert_eq!(result.publishable().len(), 0);
    assert_eq!(result.findings.len(), 1);
    assert_eq!(result.findings[0].finding.state, FindingState::Suppressed);

    let (_, reason) = result.withheld().into_iter().next().expect("withheld with a reason");
    assert!(reason.contains("known, accepted"), "{reason}");
}

#[test]
fn normalize_a_glob_suppression_matches_by_path() {
    let changed = vec!["vendor/gen/api.rs".to_owned()];
    let suppressions = vec![suppression(None, Some("vendor/**"))];

    let result = normalize(
        &vec![raw(Severity::High, Some("vendor/gen/api.rs"), "style")],
        vec![],
        &context(&changed, Depth::Standard, &suppressions, &vec![]),
    );

    assert_eq!(result.publishable().len(), 0);
    assert_eq!(result.findings[0].finding.state, FindingState::Suppressed);
}

#[test]
fn normalize_a_glob_suppression_does_not_match_other_paths() {
    let changed = vec!["src/a.rs".to_owned()];
    let suppressions = vec![suppression(None, Some("vendor/**"))];

    let result = normalize(
        &vec![raw(Severity::High, Some("src/a.rs"), "real")],
        vec![],
        &context(&changed, Depth::Standard, &suppressions, &vec![]),
    );

    assert_eq!(result.publishable().len(), 1);
}

#[test]
fn normalize_an_inert_suppression_matches_nothing() {
    let changed = vec!["src/a.rs".to_owned()];
    let suppressions = vec![suppression(None, None)];

    let result = normalize(
        &vec![raw(Severity::High, Some("src/a.rs"), "real")],
        vec![],
        &context(&changed, Depth::Standard, &suppressions, &vec![]),
    );

    assert_eq!(result.publishable().len(), 1);
}

#[test]
fn normalize_an_invalid_suppression_glob_suppresses_nothing() {
    let changed = vec!["src/a.rs".to_owned()];
    let suppressions = vec![suppression(None, Some("[unclosed"))];

    let result = normalize(
        &vec![raw(Severity::High, Some("src/a.rs"), "real")],
        vec![],
        &context(&changed, Depth::Standard, &suppressions, &vec![]),
    );

    assert_eq!(result.publishable().len(), 1);
}

#[test]
fn normalize_a_repeat_of_a_published_fingerprint_is_superseded() {
    let changed = vec!["src/a.rs".to_owned()];
    let print = fingerprint("rev-local", Some("src/a.rs"), Category::Correctness, "boom");

    let result = normalize(
        &vec![raw(Severity::High, Some("src/a.rs"), "boom")],
        vec![],
        &context(&changed, Depth::Standard, &vec![], &vec![print.clone()]),
    );

    assert_eq!(result.findings[0].finding.state, FindingState::Superseded);
    assert_eq!(result.publishable().len(), 0, "not re-filed");
    assert!(result.findings[0]
        .notes
        .contains(&NormalizationNote::Superseded { fingerprint: print }));
}

#[test]
fn normalize_a_repeat_at_a_different_line_is_still_superseded() {
    let changed = vec!["src/a.rs".to_owned()];
    let print = fingerprint("rev-local", Some("src/a.rs"), Category::Correctness, "boom");

    let mut moved = raw(Severity::High, Some("src/a.rs"), "boom");
    moved.line_start = Some(400);
    moved.line_end = Some(402);

    let result = normalize(
        &vec![moved],
        vec![],
        &context(&changed, Depth::Standard, &vec![], &vec![print]),
    );

    assert_eq!(result.findings[0].finding.state, FindingState::Superseded);
}

#[test]
fn normalize_a_repeat_within_one_run_is_superseded_too() {
    let changed = vec!["src/a.rs".to_owned()];
    let result = normalize(
        &vec![
            raw(Severity::High, Some("src/a.rs"), "boom"),
            raw(Severity::High, Some("src/a.rs"), "boom"),
        ],
        vec![],
        &context(&changed, Depth::Standard, &vec![], &vec![]),
    );

    assert_eq!(result.publishable().len(), 1);
    assert_eq!(result.findings[0].finding.state, FindingState::Open);
    assert_eq!(result.findings[1].finding.state, FindingState::Superseded);
}

#[test]
fn normalize_a_different_finding_on_the_same_file_is_not_superseded() {
    let changed = vec!["src/a.rs".to_owned()];
    let print = fingerprint("rev-local", Some("src/a.rs"), Category::Correctness, "boom");

    let result = normalize(
        &vec![raw(Severity::High, Some("src/a.rs"), "a different problem")],
        vec![],
        &context(&changed, Depth::Standard, &vec![], &vec![print]),
    );

    assert_eq!(result.findings[0].finding.state, FindingState::Open);
    assert_eq!(result.publishable().len(), 1);
}

#[test]
fn normalize_a_suppression_pattern_may_be_nested_deeply() {
    let changed = vec!["src/a.rs".to_owned()];
    let nested = |depth: usize| format!("{}src/*.rs{}", "{".repeat(depth), "}".repeat(depth));
    let state = |pattern: &str| {
        let suppressions = vec![suppression(None, Some(pattern))];
        let result = normalize(
            &vec![raw(Severity::High, Some("src/a.rs"), "real")],
            vec![],
            &context(&changed, Depth::Standard, &suppressions, &vec![]),
        );
        result.findings[0].finding.state
    };
    assert_eq!(state(&nested(3)), FindingState::Suppressed);
    assert_eq!(state(&nested(64)), FindingState::Suppressed);
    assert_eq!(state(&nested(65)), FindingState::Suppressed);
    // A brace in a class opens nothing.
    assert_eq!(state(&format!("src/[{}a].rs", "{".repeat(2_000))), FindingState::Suppressed);
    // Too deep to be compiled, a pattern suppresses nothing.
    assert_eq!(state(&nested(400)), FindingState::Open);
    assert_eq!(state(&nested(100_000)), FindingState::Open);
}

#[test]
fn normalize_suppression_wins_over_supersession() {
    let changed = vec!["src/a.rs".to_owned()];
    let print = fingerprint("rev-local", Some("src/a.rs"), Category::Correctness, "boom");
    let suppressions = vec![suppression(Some(&print), None)];

    let result = normalize(
        &vec![raw(Severity::High, Some("src/a.rs"), "boom")],
        vec![],
        &context(
            &changed,
            Depth::Standard,
            &suppressions,
            &vec![print.clone()],
        ),
    );

    assert_eq!(result.findings[0].finding.state, FindingState::Suppressed);
}

#[test]
fn normalize_preserves_the_reported_order() {
    let changed = vec!["src/a.rs".to_owned()];
    let result = normalize(
        &vec![
            raw(Severity::Low, Some("src/a.rs"), "first"),
            raw(Severity::High, Some("src/a.rs"), "second"),
        ],
        vec![],
        &context(&changed, Depth::Standard, &vec![], &vec![]),
    );

    assert_eq!(result.findings[0].finding.title, "first");
    assert_eq!(result.findings[1].finding.title, "second");
}

#[test]
fn normalize_a_missing_confidence_is_full_confidence() {
    let changed = vec!["src/a.rs".to_owned()];
    let mut without = raw(Severity::High, Some("src/a.rs"), "t");
    without.confidence_bits = None;

    let result = normalize(
        &vec![without],
        vec![],
        &context(&changed, Depth::Standard, &vec![], &vec![]),
    );

    assert!((f64::from_bits(result.findings[0].finding.confidence_bits) - 1.0).abs() < f64::EPSILON);
}

#[test]
fn normalize_every_withheld_finding_states_a_reason() {
    let changed = vec!["src/a.rs".to_owned()];
    let print = fingerprint("rev-local", Some("src/a.rs"), Category::Correctness, "boom");
    let suppressions = vec![suppression(None, Some("other/**"))];

    let result = normalize(
        &vec![
            raw(Severity::High, Some("src/a.rs"), "boom"),
            raw(Severity::High, Some("other/b.rs"), "elsewhere"),
        ],
        vec![],
        &context(&changed, Depth::Standard, &suppressions, &vec![print]),
    );

    for (finding, reason) in result.withheld() {
        assert!(
            !reason.is_empty(),
            "{} was withheld with no reason",
            finding.finding.title
        );
    }
    assert_eq!(result.withheld().len(), 2);
}

#[test]
fn normalize_an_empty_result_is_empty() {
    let result = normalize(&vec![], vec![], &context(&vec![], Depth::Standard, &vec![], &vec![]));

    assert!(result.findings.is_empty());
    assert!(result.still_dropped.is_empty());
    assert_eq!(result.publishable().len(), 0);
}

#[test]
fn normalize_mends_the_severity_of_a_document_and_nothing_else() {
    let finding = dropped(
        2,
        &["/severity: \"warning\" is not one of the allowed values"],
        r#"{"severity": "warning", "title": "t", "body": "b", "extra": [1, 2]}"#,
    );

    assert_eq!(
        finding.repaired_document().as_deref(),
        Some(r#"{"body":"b","extra":[1,2],"severity":"medium","title":"t"}"#)
    );
}

#[test]
fn normalize_puts_every_note_in_words() {
    let note = NormalizationNote::SeveritySalvaged { reported: "warn\"ing".to_owned() };

    assert!(note.describe().contains("\"warn\\\"ing\""), "{}", note.describe());
}
