//! Which runs go ahead, and what is queued of them.

use revlocal_daemon::budgets::BudgetVerdict;
use revlocal_daemon::clock::Timestamp;
use revlocal_daemon::engines::EngineError;
use revlocal_daemon::executor::{
    cannot_materialize, enqueue_manual, enqueue_report, no_scratch, page_findings, paused_line, queue_actions,
    queued_run, record_result, run_outcome, short_id, skipped_run, take_oldest, transcript_path, unencodable,
    Execution, ExecutorError, ExecutorReport, Filable, FiledKey, PageEntry, QueueInputs, QueuedActions,
    RepoStanding, RunStep, Target, ENQUEUE_BATCH,
};
use revlocal_daemon::model::{
    AutonomyMode, Category, Depth, EngineKind, PublishActionStatus, RepoConfig, RepoKind, RiskClass, RunStatus,
    Severity, TriggerSource, Usage, Verdict,
};
use revlocal_daemon::pipeline::{ReviewReport, ReviewStatus};
use revlocal_daemon::state_machine::RunEvent;

fn config(targets: &[&str]) -> RepoConfig {
    RepoConfig {
        deep_file_limit: 150,
        sensitive_globs: Vec::new(),
        deep_labels: Vec::new(),
        max_file_diff_bytes: 64_000,
        max_total_diff_bytes: 512_000,
        max_convention_bytes: 32_000,
        convention_files: Vec::new(),
        scope: vec![Category::Correctness],
        branches: Vec::new(),
        watch_branches: false,
        webhook_enabled: false,
        webhook_secret_ref: None,
        targets: targets.iter().map(|t| (*t).to_owned()).collect(),
        andare_project: None,
        trama_space: None,
        trama_publish: false,
    }
}

fn filable(fingerprint: &str, publishable: bool) -> Filable {
    Filable {
        fingerprint: fingerprint.to_owned(),
        publishable,
        local_risk: RiskClass::Low,
        external_risk: RiskClass::High,
    }
}

fn queue(config: &RepoConfig, mode: AutonomyMode, findings: &Vec<Filable>, filed: &Vec<FiledKey>) -> QueuedActions {
    queue_actions(
        &QueueInputs {
            run_id: 7,
            repo_name: "acme",
            mode,
            config,
            github_slug: None,
            findings,
            page_risk: RiskClass::Low,
            written_to: &vec![Target::Andare, Target::Github, Target::Trama],
        },
        filed,
    )
}

#[test]
fn the_first_write_to_a_target_waits_whatever_the_mode() {
    let settings = RepoConfig {
        andare_project: Some("ACME".to_owned()),
        trama_space: Some("docs".to_owned()),
        ..config(&["report", "andare", "github", "trama"])
    };
    let findings = vec![filable("f1", true)];
    let plan = |mode: AutonomyMode, written_to: &Vec<Target>| {
        let inputs = QueueInputs {
            run_id: 7,
            repo_name: "acme",
            mode,
            config: &settings,
            github_slug: Some("acme/app"),
            findings: &findings,
            page_risk: RiskClass::Low,
            written_to,
        };
        let queued = queue_actions(&inputs, &vec![]);
        queued.actions.iter().map(|a| (a.target, a.status)).collect::<Vec<_>>()
    };
    let waits = PublishActionStatus::AwaitingApproval;
    let goes = PublishActionStatus::Pending;
    assert_eq!(
        plan(AutonomyMode::Auto, &vec![]),
        [(Target::Andare, waits), (Target::Github, waits), (Target::Report, goes), (Target::Trama, waits)]
    );
    assert_eq!(
        plan(AutonomyMode::Auto, &vec![Target::Andare]),
        [(Target::Andare, goes), (Target::Github, waits), (Target::Report, goes), (Target::Trama, waits)]
    );
    assert_eq!(plan(AutonomyMode::AutoLowAskHigh, &vec![])[3], (Target::Trama, waits));
    assert_eq!(plan(AutonomyMode::AutoLowAskHigh, &vec![Target::Trama])[3], (Target::Trama, goes));
    assert_eq!(plan(AutonomyMode::DryRun, &vec![])[0], (Target::Andare, PublishActionStatus::SkippedDryRun));
}

#[test]
fn a_run_is_queued_once() {
    let settings = RepoConfig {
        andare_project: Some("ACME".to_owned()),
        trama_space: Some("docs".to_owned()),
        ..config(&["report", "andare", "trama"])
    };
    let findings = vec![filable("f1", true), filable("f2", true), filable("f1", true)];
    let first = queue(&settings, AutonomyMode::Auto, &findings, &vec![]);
    assert_eq!(first.actions.len(), 5);
    let filed = first
        .actions
        .iter()
        .map(|a| FiledKey { target: a.target, key: a.idempotency_key.clone() })
        .collect();
    assert!(queue(&settings, AutonomyMode::Auto, &findings, &filed).actions.is_empty());
}

#[test]
fn each_target_is_gated_by_where_it_lands() {
    let settings = RepoConfig { andare_project: Some("ACME".to_owned()), ..config(&["report", "andare"]) };
    let queued = queue(
        &settings,
        AutonomyMode::AutoLowAskHigh,
        &vec![filable("f1", true), filable("f2", false)],
        &vec![],
    );

    assert_eq!(queued.actions.len(), 2);
    assert_eq!(queued.actions[0].target, Target::Andare);
    assert_eq!(queued.actions[0].status, PublishActionStatus::AwaitingApproval);
    assert_eq!(queued.actions[0].idempotency_key, "andare-f1-run7");
    assert_eq!(queued.actions[1].target, Target::Report);
    assert_eq!(queued.actions[1].status, PublishActionStatus::Pending);
    assert!(queued.held.is_empty());
}

#[test]
fn a_missing_setting_is_said_and_stops_nothing_else() {
    let queued = queue(
        &config(&["report", "andare", "github", "trama"]),
        AutonomyMode::Auto,
        &vec![filable("f1", true)],
        &vec![],
    );

    assert_eq!(queued.actions.len(), 1);
    assert_eq!(queued.held.len(), 3);
    assert!(queued.held[0].starts_with("run #7: 1 finding(s) were not filed to Andare — `acme`"));
    assert!(queued.held[1].contains("no recognisable GitHub remote"));
    assert!(queued.held[2].starts_with("run #7: no review page was written"));
    let nowhere = queue(&config(&[]), AutonomyMode::Auto, &vec![filable("f1", true)], &vec![]);
    assert!(nowhere.held[0].contains("no publish targets enabled"));
}

#[test]
fn nothing_is_queued_twice() {
    let filed = vec![FiledKey { target: Target::Report, key: "report-f1-run7".to_owned() }];
    let again = queue(
        &config(&["report"]),
        AutonomyMode::Auto,
        &vec![filable("f1", true), filable("f2", true), filable("f2", true)],
        &filed,
    );
    assert_eq!(again.actions.len(), 1);
    assert_eq!(again.actions[0].finding, Some(1));
    assert_eq!(
        again.held,
        ["run #7: 2 finding(s) are already filed, so nothing new was queued"]
    );
    let off = queue(&config(&["report"]), AutonomyMode::Off, &vec![filable("f1", true)], &vec![]);
    assert!(off.actions.is_empty() && off.held.is_empty());
}

#[test]
fn a_page_is_one_per_run() {
    let settings = RepoConfig { trama_space: Some("docs".to_owned()), ..config(&["trama"]) };
    let queued = queue(&settings, AutonomyMode::DryRun, &vec![], &vec![]);
    assert_eq!(queued.actions[0].idempotency_key, "trama-run-7");
    assert_eq!(queued.actions[0].finding, None);
    assert_eq!(queued.actions[0].status, PublishActionStatus::SkippedDryRun);
    let filed = vec![FiledKey { target: Target::Trama, key: "trama-run-7".to_owned() }];
    assert!(queue(&settings, AutonomyMode::DryRun, &vec![], &filed).actions.is_empty());
}

fn standing(enabled: bool, present: bool) -> Option<RepoStanding> {
    Some(RepoStanding {
        name: "acme".to_owned(),
        enabled,
        checkout_present: present,
        local_path: Some("/home/acme".to_owned()),
    })
}

#[test]
fn a_run_is_held_before_anything_is_spent() {
    let within = BudgetVerdict::WithinBudget;
    let line = |repo| Execution::begin(3, &repo, &within).map(|_| ()).expect_err("held");
    assert_eq!(line(None), "run #3: its repository has been removed");
    assert_eq!(line(standing(false, true)), "run #3: acme is disabled");
    assert!(line(standing(true, false)).starts_with("run #3: acme: the checkout is gone — /home/acme\n"));
    let unpriced = BudgetVerdict::CostUnmeasurable {
        known_cost: "1".to_owned(),
        ceiling: "2".to_owned(),
        reason: "unknown price".to_owned(),
    };
    assert_eq!(
        Execution::begin(3, &standing(true, true), &unpriced).map(|_| ()),
        Err("run #3: unknown price".to_owned())
    );
}

#[test]
fn a_run_goes_through_its_stages() {
    let (mut run, begun) = Execution::begin(3, &standing(true, true), &BudgetVerdict::WithinBudget).expect("begun");
    assert_eq!(
        begun,
        RunEvent::StageChanged { run: 3, from: RunStatus::Queued, to: RunStatus::Preparing }
    );
    run.go(RunStep::Prepared);
    run.go(RunStep::Reviewed);
    run.go(RunStep::Stored);
    let end = run.go(RunStep::Queued { status: ReviewStatus::Done, awaiting: true });
    assert_eq!(
        end,
        RunEvent::StageChanged { run: 3, from: RunStatus::Publishing, to: RunStatus::AwaitingApproval }
    );

    let (mut other, _) = Execution::begin(4, &standing(true, true), &BudgetVerdict::WithinBudget).expect("begun");
    let (event, line) = other.fail("no space left");
    assert_eq!(line, "run #4: no space left");
    assert_eq!(event, RunEvent::StageChanged { run: 4, from: RunStatus::Preparing, to: RunStatus::Failed });
}

fn report(status: ReviewStatus, failure: Option<&str>) -> ReviewReport {
    ReviewReport {
        schema_version: 1,
        repo: "acme".to_owned(),
        engine: "mock".to_owned(),
        change: "abc".to_owned(),
        status,
        skip_reason: None,
        depth: "standard".to_owned(),
        depth_reasons: Vec::new(),
        escalated: false,
        attempts: 1,
        truncated: true,
        omitted_files: vec!["a".to_owned()],
        reduced_files: Vec::new(),
        verdict: Some("comment".to_owned()),
        summary: "fine".to_owned(),
        findings: Vec::new(),
        withheld: Vec::new(),
        dropped_findings: 0,
        degraded: None,
        coverage_notes: None,
        failure: failure.map(str::to_owned),
        failure_detail: failure.map(|_| "it broke".to_owned()),
        usage: Usage { tokens_in: 1, tokens_out: 2, tokens_known: true, cost_bits: None },
    }
}

#[test]
fn a_failed_review_is_never_recorded_as_clean() {
    let nothing = QueuedActions { actions: Vec::new(), held: vec!["held".to_owned()] };
    let failed = run_outcome(3, "acme", &report(ReviewStatus::Failed, Some("engine_failed")), 0, &nothing);
    assert_eq!(failed.status, "failed");
    assert_eq!(failed.detail.as_deref(), Some("engine_failed — it broke"));
    let done = run_outcome(3, "acme", &report(ReviewStatus::Done, None), 2, &nothing);
    assert_eq!(done.status, "done");
    assert_eq!(done.detail.as_deref(), Some("held"));
    assert_eq!(done.findings, 2);
}

#[test]
fn the_record_of_a_run_is_that_of_its_review() {
    let run = queued_run(5, EngineKind::mock(), TriggerSource::Poll, Timestamp::at(1, 0));
    assert_eq!((run.attempt, run.status, run.depth), (1, RunStatus::Queued, Depth::Standard));
    let known = vec![Verdict { name: "approve", blocking: false }, Verdict { name: "comment", blocking: false }];
    let record = record_result(
        &run,
        &report(ReviewStatus::Failed, Some("engine_failed")),
        &known,
        Some("/t/5.log".to_owned()),
        Timestamp::at(9, 0),
    );

    assert_eq!(record.error.as_deref(), Some("engine_failed"));
    assert_eq!(record.error_detail.as_deref(), Some("it broke"));
    assert_eq!(record.verdict, Some(known[1]));
    assert_eq!(record.omitted_files, ["a"]);
    assert_eq!(record.transcript_path.as_deref(), Some("/t/5.log"));
    assert_eq!(record.created_at, Timestamp::at(1, 0));
    assert_eq!(record.finished_at, Some(Timestamp::at(9, 0)));
    let odd = record_result(&run, &report(ReviewStatus::Done, None), &vec![], None, Timestamp::at(9, 0));
    assert_eq!(odd.verdict, None);
}

#[test]
fn a_request_is_never_folded_into_an_earlier_run() {
    let first = enqueue_manual(5, "abc", &vec![], EngineKind::mock(), Timestamp::at(1, 0)).expect("queued");
    assert_eq!((first.attempt, first.trigger), (1, TriggerSource::Manual));
    let third = enqueue_manual(5, "abc", &vec![2, 1], EngineKind::mock(), Timestamp::at(1, 0)).expect("queued");
    assert_eq!(third.attempt, 3);
    let spent = enqueue_manual(5, "abc", &vec![u32::MAX], EngineKind::mock(), Timestamp::at(1, 0));
    assert_eq!(
        spent.expect_err("spent").describe(),
        "change abc has exhausted its run-attempt counter"
    );
    let skipped = skipped_run(5, EngineKind::mock(), TriggerSource::Backfill, "merge", Timestamp::at(4, 0));
    assert_eq!(skipped.status, RunStatus::Skipped);
    assert_eq!(skipped.skip_reason.as_deref(), Some("merge"));
    assert_eq!(skipped.finished_at, Some(Timestamp::at(4, 0)));
}

#[test]
fn a_pass_takes_the_oldest_runs_first() {
    assert_eq!(take_oldest(&vec![9, 8, 7], 2), [7, 8]);
    assert_eq!(take_oldest(&vec![9], 5), [9]);
    assert!(enqueue_report((0..i64::from(ENQUEUE_BATCH)).collect()).more_waiting);
    assert!(!enqueue_report(vec![1]).more_waiting);

    let mut pass = ExecutorReport::new(false);
    pass.cancelled(4);
    pass.took(Err("run #5: no".to_owned()));
    assert_eq!(pass.idle_line().as_deref(), Some("run #4: cancelled before it started\nrun #5: no"));
    assert!(ExecutorReport::new(true).idle_line().expect("a line").starts_with("Paused"));
    assert_eq!(ExecutorReport::new(false).idle_line(), None);
    assert_eq!(paused_line(4), "run #4: the kill switch is engaged, so it stays queued");
}

#[test]
fn a_page_lists_what_reached_a_tracker() {
    let entry = |publishable, file: Option<&str>, line_start| PageEntry {
        publishable,
        severity: Severity::High,
        title: "t".to_owned(),
        file: file.map(str::to_owned),
        line_start,
    };
    let listed = page_findings(&vec![
        entry(true, Some("a.rs"), Some(4)),
        entry(false, Some("b.rs"), None),
        entry(true, Some("c.rs"), None),
        entry(true, None, Some(1)),
    ]);

    let places: Vec<Option<&str>> = listed.iter().map(|f| f.location.as_deref()).collect();
    assert_eq!(places, [Some("a.rs:4"), Some("c.rs"), None]);
    assert_eq!(listed[0].severity, "high");
}

#[test]
fn small_things_are_put_in_words() {
    assert_eq!(short_id("0123456789abcdef"), "0123456789ab");
    assert_eq!(short_id("short"), "short");
    assert_eq!(short_id("0123456789aéx"), "0123456789aéx");
    assert_eq!(transcript_path("/data", 12), "/data/transcripts/12.log");
    assert_eq!(no_scratch("/data", "full"), "could not create a scratch directory under /data: full");
    assert!(cannot_materialize(RepoKind::Svn).is_some());
    assert!(cannot_materialize(RepoKind::Git).is_none());
    assert_eq!(
        unencodable("Andare issue", "bad").describe(),
        "could not encode the Andare issue payload: bad"
    );
    assert_eq!(
        ExecutorError::Store { source: "gone".to_owned() }.describe(),
        "could not reach the local database: gone\n  try: revlocal db migrate"
    );
    let engine = ExecutorError::Engine { source: EngineError::NoBinary { engine: "codex".to_owned() } };
    assert!(engine.describe().starts_with("[engines.codex]"));
}
