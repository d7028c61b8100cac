//! Findings across repositories.

use revlocal_daemon::autonomy::disposition;
use revlocal_daemon::clock::Timestamp;
use revlocal_daemon::findings_view::{
    file_to_andare, gather, name_of, severity_rank, suppress, FindingFilter, FindingRow, FindingsError,
};
use revlocal_daemon::model::{
    AutonomyMode, Capability, Category, Finding, FindingState, PublishActionStatus, RiskClass, Severity,
};


fn row(severity: Severity, category: &str, state: FindingState, repo_id: i64) -> FindingRow {
    FindingRow {
        id: 1,
        run_id: 1,
        repo_id,
        repo: "acme".to_owned(),
        severity,
        category: category.to_owned(),
        state,
        title: "something".to_owned(),
        file: None,
        fingerprint: "fp".to_owned(),
    }
}

#[test]
fn findings_filters_narrow_rather_than_widen() {
    let high_security = row(Severity::High, "security", FindingState::Open, 1);

    let both = FindingFilter {
        min_severity: Some(Severity::High),
        category: Some("security".to_owned()),
        ..FindingFilter::default()
    };
    assert!(both.matches(&high_security));

    let mismatched = FindingFilter {
        min_severity: Some(Severity::High),
        category: Some("performance".to_owned()),
        ..FindingFilter::default()
    };
    assert!(!mismatched.matches(&high_security));
}

#[test]
fn findings_severity_filters_by_consequence_not_alphabet() {
    let filter = FindingFilter {
        min_severity: Some(Severity::High),
        ..FindingFilter::default()
    };

    assert!(filter.matches(&row(Severity::Critical, "c", FindingState::Open, 1)));
    assert!(filter.matches(&row(Severity::High, "c", FindingState::Open, 1)));
    assert!(!filter.matches(&row(Severity::Medium, "c", FindingState::Open, 1)));
    assert!(!filter.matches(&row(Severity::Info, "c", FindingState::Open, 1)));
}

#[test]
fn findings_an_empty_filter_matches_everything() {
    let filter = FindingFilter::default();

    assert!(filter.matches(&row(Severity::Info, "style", FindingState::Suppressed, 9)));
}

#[test]
fn findings_filtering_by_repository_is_exact() {
    let filter = FindingFilter {
        repo_id: Some(1),
        ..FindingFilter::default()
    };

    assert!(filter.matches(&row(Severity::High, "c", FindingState::Open, 1)));
    assert!(!filter.matches(&row(Severity::High, "c", FindingState::Open, 2)));
}


fn finding() -> Finding {
    Finding {
        id: 4,
        run_id: 9,
        fingerprint: "abc".to_owned(),
        severity: Severity::High,
        category: Category::Security,
        confidence_bits: 1.0_f64.to_bits(),
        file: Some("src/a.rs".to_owned()),
        line_start: None,
        line_end: None,
        title: "a \"quoted\" title".to_owned(),
        body: "body".to_owned(),
        failure_scenario: None,
        suggested_fix: None,
        state: FindingState::Open,
        created_at: Timestamp::at(0, 0),
    }
}

#[test]
fn findings_a_manual_file_is_high_risk_like_an_automatic_one() {
    let action = file_to_andare(&finding(), Some(AutonomyMode::Auto), AutonomyMode::Auto, true, Timestamp::at(5, 0))
        .expect("planned");

    assert_eq!(action.risk, RiskClass::High);
    assert_eq!(action.capability, Capability::CreateIssue);
    assert_eq!(action.status, PublishActionStatus::Pending);
    assert_eq!(action.idempotency_key, "manual-andare-abc");
    assert_eq!(
        action.payload_json,
        r#"{"body":"body","rev-local-fingerprint":"abc","title":"a \"quoted\" title"}"#
    );
}

#[test]
fn findings_a_manual_file_awaits_approval_under_the_default_mode() {
    let status = disposition(AutonomyMode::AutoLowAskHigh, RiskClass::High).initial_status();
    assert_eq!(status, Some(PublishActionStatus::AwaitingApproval));
    assert_eq!(
        disposition(AutonomyMode::DryRun, RiskClass::High).initial_status(),
        Some(PublishActionStatus::SkippedDryRun)
    );

    let planned = file_to_andare(
        &finding(),
        Some(AutonomyMode::Auto),
        AutonomyMode::AutoLowAskHigh,
        true,
        Timestamp::at(5, 0),
    )
    .expect("planned");
    assert_eq!(planned.status, PublishActionStatus::AwaitingApproval);

    let first = file_to_andare(&finding(), Some(AutonomyMode::Auto), AutonomyMode::Auto, false, Timestamp::at(5, 0))
        .expect("planned");
    assert_eq!(first.status, PublishActionStatus::AwaitingApproval);
}

#[test]
fn findings_there_is_nowhere_to_file_an_orphan() {
    let orphan = file_to_andare(&finding(), None, AutonomyMode::Auto, true, Timestamp::at(5, 0)).expect_err("orphaned");
    assert_eq!(orphan, FindingsError::Orphaned { id: 4 });
    assert_eq!(
        orphan.describe(),
        "finding 4 belongs to no repository, so there is nowhere to file it"
    );

    let off = file_to_andare(&finding(), Some(AutonomyMode::Off), AutonomyMode::Auto, true, Timestamp::at(5, 0));
    assert!(off.is_err());
    let store = FindingsError::Store { source: "locked".to_owned() };
    assert_eq!(
        store.describe(),
        "could not read the local database: locked\n  try: revlocal db migrate"
    );
}

#[test]
fn findings_the_table_says_what_it_hides() {
    let rows = vec![
        row(Severity::High, "security", FindingState::Open, 1),
        row(Severity::Low, "tests", FindingState::Open, 1),
        row(Severity::Critical, "security", FindingState::Open, 2),
    ];
    let filter = FindingFilter { min_severity: Some(Severity::High), ..FindingFilter::default() };

    let view = gather(&rows, 499, &filter);
    assert_eq!(view.rows.len(), 2);
    assert_eq!(view.rows[1].repo_id, 2);
    assert_eq!(view.categories, ["security", "tests"]);
    assert_eq!(view.total_before_filter, 3);
    assert!(!view.truncated);
    assert!(gather(&rows, 500, &filter).truncated);
}

#[test]
fn findings_rows_carry_their_repository() {
    let repos = vec![(1, "acme".to_owned())];
    assert_eq!(name_of(&repos, 1), "acme");
    assert_eq!(name_of(&repos, -7), "repo -7");

    let shown = FindingRow::of(&finding(), 9, 1, "acme");
    assert_eq!(shown.category, "security");
    assert_eq!(shown.repo, "acme");
    assert!(severity_rank(Severity::Critical) > severity_rank(Severity::Info));
}

#[test]
fn findings_suppressing_one_stays_in_its_repository() {
    let (repo, suppression, state) = suppress(&finding(), 3);

    assert_eq!(repo, 3);
    assert_eq!(suppression.fingerprint.as_deref(), Some("abc"));
    assert_eq!(suppression.glob, None);
    assert_eq!(state, FindingState::Suppressed);
}
