//! One run in detail.

use revlocal_daemon::clock::Timestamp;
use revlocal_daemon::model::{
    Capability, Category, Depth, EngineKind, Finding, FindingState, PublishAction, PublishActionStatus, RiskClass,
    Run, RunStatus, Severity, TriggerSource, Usage, Verdict,
};
use revlocal_daemon::run_view::{gather, stages_of, tally_targets, RunViewError};


fn action(target: &str, status: PublishActionStatus) -> PublishAction {
    PublishAction {
        id: 0,
        run_id: 1,
        finding_id: None,
        target: target.to_owned(),
        capability: Capability::PostReview,
        risk: RiskClass::Low,
        payload_json: "{}".to_owned(),
        status,
        created_at: Timestamp::at(0, 0),
    }
}

#[test]
fn run_view_only_a_failed_target_offers_a_retry() {
    let lines = tally_targets(&vec![
        action("github", PublishActionStatus::Sent),
        action("andare", PublishActionStatus::Failed),
        action("trama", PublishActionStatus::AwaitingApproval),
    ]);

    let retryable: Vec<&str> = lines
        .iter()
        .filter(|line| line.retryable)
        .map(|line| line.target.as_str())
        .collect();

    assert_eq!(retryable, vec!["andare"]);
}

#[test]
fn run_view_a_rejected_action_is_not_a_failure() {
    let lines = tally_targets(&vec![
        action("andare", PublishActionStatus::Rejected),
        action("andare", PublishActionStatus::SkippedDryRun),
    ]);

    assert_eq!(lines.len(), 1);
    assert_eq!(lines[0].failed, 0);
    assert!(!lines[0].retryable);
}

#[test]
fn run_view_targets_come_back_in_a_stable_order() {
    let first = tally_targets(&vec![
        action("trama", PublishActionStatus::Sent),
        action("andare", PublishActionStatus::Sent),
        action("github", PublishActionStatus::Sent),
    ]);
    let second = tally_targets(&vec![
        action("github", PublishActionStatus::Sent),
        action("trama", PublishActionStatus::Sent),
        action("andare", PublishActionStatus::Sent),
    ]);

    let names: Vec<&str> = first.iter().map(|l| l.target.as_str()).collect();
    assert_eq!(names, vec!["andare", "github", "trama"]);
    assert_eq!(first, second, "the same data must tally the same way");
}

#[test]
fn run_view_says_why_there_is_no_per_stage_breakdown() {
    let stages = stages_of(None, None);

    assert!(
        stages.per_stage_unavailable.contains("not recorded"),
        "{stages:?}"
    );
    assert!(stages.elapsed_secs.is_none());
}

#[test]
fn run_view_elapsed_needs_both_ends() {
    let start = Timestamp::at(1_788_000_000, 0);
    let end = Timestamp::at(1_788_000_094, 0);

    assert_eq!(stages_of(Some(start), Some(end)).elapsed_secs, Some(94));
    assert_eq!(stages_of(Some(start), None).elapsed_secs, None);
}

fn run() -> Run {
    Run {
        id: 12,
        change_id: 3,
        attempt: 1,
        status: RunStatus::Done,
        engine: EngineKind { name: "codex" },
        depth: Depth::Deep,
        trigger: TriggerSource::Poll,
        skip_reason: None,
        error: None,
        error_detail: None,
        degraded: None,
        usage: Usage { tokens_in: 40, tokens_out: 2, tokens_known: true, cost_bits: None },
        started_at: Some(Timestamp::at(1_788_000_000, 0)),
        finished_at: Some(Timestamp::at(1_788_000_010, 900_000_000)),
        transcript_path: None,
        truncated: false,
        omitted_files: Vec::new(),
        verdict: Some(Verdict { name: "comment", blocking: false }),
        summary: None,
        created_at: Timestamp::at(0, 0),
    }
}

#[test]
fn run_view_puts_a_run_together() {
    let finding = Finding {
        id: 1,
        run_id: 12,
        fingerprint: "f".to_owned(),
        severity: Severity::High,
        category: Category::Tests,
        confidence_bits: 0,
        file: Some("src/a.rs".to_owned()),
        line_start: None,
        line_end: None,
        title: "t".to_owned(),
        body: String::new(),
        failure_scenario: None,
        suggested_fix: None,
        state: FindingState::Open,
        created_at: Timestamp::at(0, 0),
    };
    let anchored = Finding { line_start: Some(3), ..finding.clone() };
    let view = gather(
        &run(),
        "abc123",
        &vec![finding, anchored],
        &vec![action("andare", PublishActionStatus::Failed), action("andare", PublishActionStatus::Approved)],
        7,
    );

    assert_eq!(view.run_id, 12);
    assert_eq!(view.tokens, 42);
    assert_eq!(view.verdict.as_deref(), Some("comment"));
    assert_eq!(view.stages.elapsed_secs, Some(10));
    assert_eq!(view.stages.started_at.as_deref(), Some("2026-08-29T10:40:00+00:00"));
    assert!(!view.findings[0].anchorable);
    assert!(view.findings[1].anchorable);
    assert_eq!(view.targets[0].failed, 1);
    assert_eq!(view.targets[0].pending, 1);
    assert!(view.fully_reported());

    let degraded = gather(&Run { degraded: Some("salvaged".to_owned()), ..run() }, "x", &vec![], &vec![], 0);
    assert!(!degraded.fully_reported());
}

#[test]
fn run_view_errors_say_what_to_try() {
    assert_eq!(
        RunViewError::NoSuchRun { id: 9 }.describe(),
        "no run with id 9\n  try: revlocal runs list"
    );
    assert!(RunViewError::Store { source: "x".to_owned() }.describe().contains("db migrate"));
}
