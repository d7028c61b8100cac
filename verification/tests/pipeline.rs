//! One review, from what is shown to what is reported.

use revlocal_daemon::clock::Timestamp;
use revlocal_daemon::model::{
    Category, Depth, DiffStat, EngineKind, FileDiff, RepoConfig, Severity, Usage, Verdict,
};
use revlocal_daemon::normalize::{normalize, NormalizeContext, Normalized, RawFinding, Suppression};
use revlocal_daemon::pipeline::{
    attempt_after, blocks, build_report, conclude, engine_out_dir, prepare, publishable_findings,
    suppressed_fingerprints, Attempt, EngineAnswer, PipelineError, Prepared, ReviewInputs, ReviewStatus,
};
use revlocal_daemon::prompt::PromptError;

fn config() -> RepoConfig {
    RepoConfig {
        deep_file_limit: 150,
        sensitive_globs: vec!["**/auth/**".to_owned()],
        deep_labels: Vec::new(),
        max_file_diff_bytes: 64_000,
        max_total_diff_bytes: 512_000,
        max_convention_bytes: 32_000,
        convention_files: Vec::new(),
        scope: vec![Category::Correctness],
        branches: Vec::new(),
        watch_branches: false,
        webhook_enabled: false,
        webhook_secret_ref: None,
        targets: Vec::new(),
        andare_project: None,
        trama_space: None,
        trama_publish: false,
    }
}

fn file(path: &str) -> FileDiff {
    FileDiff {
        path: path.to_owned(),
        previous_path: None,
        status: "modified".to_owned(),
        insertions: 1,
        deletions: 0,
        binary: false,
    }
}

struct Given {
    config: RepoConfig,
    files: Vec<FileDiff>,
    reviewable: Vec<String>,
    labels: Vec<String>,
}

fn given(paths: &[&str], reviewable: &[&str]) -> Given {
    Given {
        config: config(),
        files: paths.iter().map(|p| file(p)).collect(),
        reviewable: reviewable.iter().map(|p| (*p).to_owned()).collect(),
        labels: Vec::new(),
    }
}

fn inputs<'a>(given: &'a Given, skip: Option<&'a str>) -> ReviewInputs<'a> {
    ReviewInputs {
        repo_name: "acme",
        change: "abc",
        diff_stat: DiffStat { files: 1, insertions: 1, deletions: 0 },
        config: &given.config,
        diff_unified: "diff --git a/src/a.rs b/src/a.rs\n+x\n",
        diff_files: &given.files,
        reviewable: &given.reviewable,
        labels: &given.labels,
        skip,
    }
}

fn normalized(severity: Severity, depth: Depth) -> Normalized {
    normalized_at(severity, depth, 0, Timestamp::at(0, 0))
}

fn normalized_at(severity: Severity, depth: Depth, run_id: i64, now: Timestamp) -> Normalized {
    let raw = RawFinding {
        severity,
        category: Category::Correctness,
        confidence_bits: None,
        file: Some("src/a.rs".to_owned()),
        line_start: Some(3),
        line_end: None,
        title: "t".to_owned(),
        body: "b".to_owned(),
        failure_scenario: None,
        suggested_fix: None,
        fingerprint: "f1".to_owned(),
    };
    normalize(
        &vec![raw],
        Vec::new(),
        &NormalizeContext {
            run_id,
            changed_paths: &vec!["src/a.rs".to_owned()],
            depth,
            suppressions: &Vec::new(),
            published_fingerprints: &Vec::new(),
            now,
        },
    )
}

fn reply() -> EngineAnswer {
    EngineAnswer {
        verdict: Verdict { name: "comment", blocking: false },
        summary: "one thing".to_owned(),
        degraded: None,
        coverage_notes: Some("all read".to_owned()),
        usage: Usage { tokens_in: 5, tokens_out: 6, tokens_known: true, cost_bits: None },
    }
}

#[test]
fn a_change_that_is_not_reviewed_says_why() {
    let data = given(&["src/a.rs"], &["src/a.rs"]);
    match prepare(&inputs(&data, Some("merge commit")), EngineKind::mock()) {
        Prepared::Skipped(report) => {
            assert_eq!(report.status, ReviewStatus::Skipped);
            assert_eq!(report.skip_reason.as_deref(), Some("merge commit"));
            assert_eq!((report.attempts, report.depth.as_str()), (0, "summary"));
            assert!(report.is_consistent());
        }
        other => panic!("{other:?}"),
    }
    let ignored = given(&["Cargo.lock"], &[]);
    match prepare(&inputs(&ignored, None), EngineKind::mock()) {
        Prepared::Skipped(report) => assert_eq!(
            report.skip_reason.as_deref(),
            Some("every path matched ignore_globs, or the diff was empty")
        ),
        other => panic!("{other:?}"),
    }
}

#[test]
fn a_review_is_reported() {
    let data = given(&["src/a.rs", "Cargo.lock"], &["src/a.rs"]);
    let all = inputs(&data, None);
    let Prepared::Ready { cut, decision, changed_paths } = prepare(&all, EngineKind::mock()) else {
        panic!("a review");
    };
    assert_eq!(changed_paths, ["src/a.rs", "Cargo.lock"]);
    assert_eq!(decision.depth, Depth::Standard);

    let attempt = Attempt::first(decision.depth);
    let result = Ok((reply(), normalized(Severity::Low, attempt.depth)));
    assert_eq!(attempt_after(attempt, &result), None);
    let report = build_report(&all, &decision, &cut, EngineKind::mock(), attempt, &result);
    assert_eq!((report.status, report.attempts, report.escalated), (ReviewStatus::Done, 1, false));
    assert_eq!(report.verdict.as_deref(), Some("comment"));
    assert_eq!(report.findings.len(), 1);
    assert_eq!((report.findings[0].severity.as_str(), report.findings[0].line_start), ("low", Some(3)));
    assert_eq!(report.coverage_notes.as_deref(), Some("all read"));
    assert!(report.is_consistent());
}

#[test]
fn a_serious_finding_is_read_again_once() {
    let first = Attempt::first(Depth::Standard);
    let serious = Ok((reply(), normalized(Severity::Critical, Depth::Standard)));
    let second = attempt_after(first, &serious).expect("a second look");
    assert_eq!((second.depth, second.escalated, second.number), (Depth::Deep, true, 2));
    assert_eq!(attempt_after(second, &Ok((reply(), normalized(Severity::Critical, Depth::Deep)))), None);
    assert_eq!(publishable_findings(&normalized(Severity::Critical, Depth::Standard)).len(), 1);
    assert!(first.following(&publishable_findings(&normalized(Severity::Low, Depth::Standard))).is_none());
}

#[test]
fn a_review_that_failed_is_not_a_clean_one() {
    let data = given(&["src/a.rs"], &["src/a.rs"]);
    let all = inputs(&data, None);
    let Prepared::Ready { cut, decision, .. } = prepare(&all, EngineKind::mock()) else {
        panic!("a review");
    };
    let attempt = Attempt::first(decision.depth);
    let failed = Err("exit code 3".to_owned());
    assert_eq!(attempt_after(attempt, &failed), None);
    let report = build_report(&all, &decision, &cut, EngineKind::mock(), attempt, &failed);
    assert_eq!(report.status, ReviewStatus::Failed);
    assert_eq!(report.failure.as_deref(), Some("engine_failed"));
    assert_eq!(report.failure_detail.as_deref(), Some("exit code 3"));
    assert_eq!(report.verdict, None);
    let outcome = conclude(&all, &decision, &cut, EngineKind::mock(), attempt, failed);
    assert_eq!((outcome.report, outcome.findings.len()), (report, 0));
    let went = Ok((reply(), normalized(Severity::Low, attempt.depth)));
    let outcome = conclude(&all, &decision, &cut, EngineKind::mock(), attempt, went);
    assert_eq!(outcome.findings, normalized(Severity::Low, attempt.depth).findings);
    assert_eq!(outcome.report.findings.len(), 1);
}

#[test]
fn what_is_suppressed_is_listed_in_order() {
    let named = |print: Option<&str>| Suppression {
        fingerprint: print.map(str::to_owned),
        glob: None,
        reason: None,
    };
    assert_eq!(
        suppressed_fingerprints(&vec![named(Some("b")), named(None), named(Some("a")), named(Some("b"))]),
        ["a", "b", "b"]
    );
}

#[test]
fn a_blocking_verdict_blocks() {
    assert!(blocks(Verdict { name: "block", blocking: true }));
    assert!(!blocks(Verdict { name: "approve", blocking: false }));
    assert_eq!(engine_out_dir("/s"), "/s/engine-out");
    assert_eq!(
        PipelineError::OutDir { path: "/s/engine-out".to_owned(), reason: "denied".to_owned() }.describe(),
        "could not prepare the engine's output directory /s/engine-out: denied"
    );
    let write = PromptError::Write { path: "/p".to_owned(), source: "full".to_owned() };
    assert_eq!(PipelineError::Prompt(write.clone()).describe(), write.describe());
}

#[test]
fn two_reviews_of_the_same_read_the_same() {
    let data = given(&["src/a.rs"], &["src/a.rs"]);
    let all = inputs(&data, None);
    let report_at = |run_id: i64, now: Timestamp| {
        let Prepared::Ready { cut, decision, .. } = prepare(&all, EngineKind::mock()) else {
            panic!("a review");
        };
        let attempt = Attempt::first(decision.depth);
        let result = Ok((reply(), normalized_at(Severity::Low, attempt.depth, run_id, now)));
        build_report(&all, &decision, &cut, EngineKind::mock(), attempt, &result)
    };
    assert_eq!(report_at(1, Timestamp::at(0, 0)), report_at(2, Timestamp::at(1_788_000_000, 0)));
}
