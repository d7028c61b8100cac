//! One pass of the unattended loop.

use std::collections::BTreeMap;

use revlocal_daemon::autopilot::{
    expire_approvals, plan_sweep, records_skip, scheduler_says_discover, slot_limit, sweep, wants_remote,
    AutopilotError, Detected, Dispatch, Queueing, RepoPass, SweepPlan, Task, Tick, TickReport, Watched,
};
use revlocal_daemon::budgets::{BudgetVerdict, Exhausted};
use revlocal_daemon::clock::Timestamp;
use revlocal_daemon::executor::{EnqueueReport, RepoStanding};
use revlocal_daemon::model::{
    AutonomyMode, Capability, EngineKind, OnExhausted, PublishAction, PublishActionStatus, Repo, RepoKind,
    RiskClass,
};

const T0: i64 = 1_788_000_000;

fn at(secs: i64) -> Timestamp {
    Timestamp::at(T0 + secs, 0)
}

fn watched(id: i64, name: &str, enabled: bool, present: bool) -> Watched {
    Watched {
        repo_id: id,
        standing: RepoStanding {
            name: name.to_owned(),
            enabled,
            checkout_present: present,
            local_path: Some(format!("/src/{name}")),
        },
    }
}

fn dispatch(sent: usize, failed: usize, retryable: usize, unroutable: usize) -> Dispatch {
    Dispatch { sent, failed, retryable, unroutable }
}

#[test]
fn a_pass_does_its_work_in_order() {
    let mut tick = Tick::begin(
        at(0),
        false,
        &vec![watched(1, "acme", true, true), watched(2, "gone", true, false), watched(3, "off", false, true)],
    );
    assert_eq!(tick.reachable, [1]);
    assert_eq!(tick.report.repos, 2);
    assert_eq!(tick.report.at, "2026-08-29T10:40:00+00:00");

    tick.remote_not_recorded("acme", "locked");
    tick.remotes_recorded();
    assert_eq!(tick.task, Task::Recover);
    tick.recovered(1, &vec![(4, "tried 3 times".to_owned())]);
    tick.discovered(vec![RepoPass::over(
        "acme",
        &vec![
            Detected { external_id: "a1".to_owned(), cursor_value: "a1".to_owned(), skip: None },
            Detected {
                external_id: "b2".to_owned(),
                cursor_value: "b2".to_owned(),
                skip: Some("merge commit".to_owned()),
            },
        ],
        2,
        None,
    )]);
    tick.enqueued(&vec![Queueing {
        repo: "acme".to_owned(),
        result: Ok(EnqueueReport { queued: vec![9], more_waiting: true }),
    }]);
    tick.reviewed(Vec::new(), &vec!["run #9: no".to_owned()]);
    tick.dispatched(&Ok(dispatch(2, 1, 1, 1)), &vec![], true);
    tick.expired(&Ok(1));
    tick.swept(&Ok(3));
    tick.counted(1, 4);

    assert_eq!(tick.task, Task::Over);
    assert_eq!(tick.report.passes[0].skipped, ["b2 — merge commit"]);
    assert_eq!(tick.report.passes[0].cursor.as_deref(), Some("b2"));
    assert_eq!(
        tick.report.notes,
        [
            "acme: could not record its remote — locked",
            "run #4 was given up on — tried 3 times",
            "acme: more changes are waiting than one pass queues; the next tick takes the rest",
            "gone: the checkout is gone — /src/gone\n  try: put it back, point the repository at its new \
             location, or disable it",
            "run #9: no",
            "1 action(s) name a target that is not configured, so nothing was sent\n  try: add the suite \
             bearer in Settings",
        ]
    );
    assert_eq!(
        tick.report.line(),
        "Found 1 new change(s), skipped 1, restarted 1 stuck run(s), queued 1, filed 2, 2 failed to file, \
         cleared 3 old run(s), 1 approval(s) expired unanswered, 1 waiting for you, 4 still queued."
    );
    assert!(tick.report.is_newsworthy());
}

#[test]
fn a_missing_checkout_is_named_once() {
    let mut tick = Tick::begin(at(0), false, &vec![watched(2, "gone", true, false)]);
    tick.remotes_recorded();
    tick.recovered(0, &vec![]);
    tick.discovered(vec![]);
    tick.enqueued(&vec![]);
    tick.reviewed(Vec::new(), &vec!["run #9: gone: the checkout is gone".to_owned()]);

    assert_eq!(tick.report.notes, ["run #9: gone: the checkout is gone"]);
    assert_eq!(tick.task, Task::Dispatch, "what is owed still goes out");
}

#[test]
fn a_stopped_loop_and_a_quiet_one_read_differently() {
    let mut paused = Tick::begin(at(0), true, &vec![watched(1, "acme", true, true)]);
    paused.remotes_recorded();
    assert_eq!(paused.task, Task::Over);
    assert!(paused.report.line().contains("resume"), "{}", paused.report.line());

    let quiet = TickReport { repos: 3, ..TickReport::default() };
    assert_eq!(quiet.line(), "Nothing new across 3 repositories.");
    assert!(!quiet.is_newsworthy());
    assert_eq!(TickReport::default().line(), "No repositories are enabled yet.");
}

#[test]
fn what_a_step_could_not_do_is_a_note() {
    let mut tick = Tick::begin(at(0), false, &vec![watched(1, "acme", true, true)]);
    tick.remotes_recorded();
    tick.recovered(0, &vec![]);
    tick.discovered(vec![RepoPass::failed("acme", "unreachable")]);
    tick.enqueued(&vec![Queueing { repo: "acme".to_owned(), result: Err("locked".to_owned()) }]);
    tick.reviewed(Vec::new(), &vec![]);
    tick.dispatched(&Err("offline".to_owned()), &vec![], true);
    tick.expired(&Err("locked".to_owned()));
    tick.swept(&Err("full".to_owned()));

    assert_eq!(
        tick.report.notes,
        [
            "acme: locked",
            "could not deliver: offline",
            "could not expire old approvals — locked",
            "could not clear old runs — full",
        ]
    );
}

#[test]
fn an_unroutable_action_says_why() {
    let mut tick = Tick::begin(at(0), false, &vec![]);
    tick.remotes_recorded();
    tick.recovered(0, &vec![]);
    tick.discovered(vec![]);
    tick.enqueued(&vec![]);
    tick.reviewed(Vec::new(), &vec![]);
    tick.dispatched(&Ok(dispatch(0, 0, 0, 2)), &vec!["andare: no bearer".to_owned()], false);

    assert_eq!(
        tick.report.notes,
        ["2 action(s) name a target that is not configured, so nothing was sent\n  andare: no bearer"]
    );
}

#[test]
fn a_pass_that_broke_has_not_moved() {
    let changes = vec![
        Detected { external_id: "a".to_owned(), cursor_value: "1".to_owned(), skip: None },
        Detected { external_id: "b".to_owned(), cursor_value: "2".to_owned(), skip: None },
    ];
    let broke = RepoPass::over("acme", &changes, 1, Some("disk full".to_owned()));
    assert_eq!((broke.discovered, broke.recorded), (2, 1));
    assert_eq!(broke.cursor, None);
    assert_eq!(broke.error.as_deref(), Some("disk full"));

    let mut pass = RepoPass::over("acme", &changes, 2, None);
    assert_eq!(pass.cursor.as_deref(), Some("2"));
    pass.cursor_not_moved("locked");
    assert_eq!((pass.cursor, pass.error.as_deref()), (None, Some("locked")));
}

#[test]
fn a_repository_that_never_found_anything_is_asked_why() {
    let mut empty = RepoPass::over("acme", &vec![], 0, None);
    assert!(empty.asks_why(false));
    assert!(!empty.asks_why(true));
    empty.nothing_to_discover("no branch matches", "set branches", true);
    assert_eq!(empty.error.as_deref(), Some("no branch matches\n  try: set branches"));

    let mut fresh = RepoPass::over("acme", &vec![], 0, None);
    fresh.nothing_to_discover("no commits yet", "commit", false);
    assert_eq!((fresh.error, fresh.note.as_deref()), (None, Some("no commits yet\n  try: commit")));
}

#[test]
fn a_skip_is_recorded_once() {
    assert!(records_skip(true, 0));
    assert!(!records_skip(true, 1));
    assert!(!records_skip(false, 0));
    assert_eq!((slot_limit(0), slot_limit(7)), (2, 7));
}

fn verdicts(first: BudgetVerdict) -> BTreeMap<i64, BudgetVerdict> {
    BTreeMap::from([(1, first)])
}

#[test]
fn discovery_waits_for_a_budget() {
    let spent = BudgetVerdict::Exhausted {
        which: Exhausted::Runs,
        action: OnExhausted::Pause,
        reason: "spent".to_owned(),
    };
    assert!(scheduler_says_discover(&vec![1], verdicts(BudgetVerdict::WithinBudget), 2, 1_500, at(0)));
    assert!(!scheduler_says_discover(&vec![1], verdicts(spent), 2, 1_500, at(0)));
    assert!(!scheduler_says_discover(&vec![], BTreeMap::new(), 2, 1_500, at(0)));
}

#[test]
fn retention_sweeps_once_a_day() {
    let before = at(0).to_rfc3339();
    assert!(matches!(sweep(Some(&before), 30, at(86_399)), SweepPlan::NotDue));
    match sweep(Some(&before), 30, at(86_400)) {
        SweepPlan::RemoveBefore(limit) => assert_eq!(limit, at(86_400 - 30 * 86_400)),
        other => panic!("{other:?}"),
    }
    assert!(matches!(sweep(Some("no date"), 30, at(0)), SweepPlan::RemoveBefore(_)));
    assert!(matches!(sweep(None, 0, at(0)), SweepPlan::KeepEverything));
    assert!(matches!(plan_sweep(Some(at(0)), 0, at(10)), SweepPlan::NotDue));
}

fn waiting(id: i64, created_at: Timestamp) -> PublishAction {
    PublishAction {
        id,
        run_id: 7,
        finding_id: None,
        target: "andare".to_owned(),
        capability: Capability::CreateIssue,
        risk: RiskClass::High,
        payload_json: "{}".to_owned(),
        status: PublishActionStatus::AwaitingApproval,
        created_at,
    }
}

#[test]
fn an_approval_nobody_answered_runs_out() {
    let now = at(10 * 3_600);
    let expired = expire_approvals(&vec![waiting(1, at(0)), waiting(2, at(3_600))], 10, now);
    assert_eq!(expired.len(), 1);
    assert_eq!((expired[0].action_id, expired[0].waited_hours), (1, 10));
    assert_eq!(expired[0].actor, "none");
    assert!(expire_approvals(&vec![waiting(1, at(0))], 0, now).is_empty(), "zero waits for ever");
}

#[test]
fn only_a_git_checkout_without_a_remote_is_asked_for_one() {
    let repo = Repo {
        id: 1,
        name: "acme".to_owned(),
        kind: RepoKind::Git,
        local_path: Some("/src/acme".to_owned()),
        remote_url: None,
        default_branch: None,
        engine: EngineKind::mock(),
        autonomy: AutonomyMode::DryRun,
        enabled: true,
        config_json: "{}".to_owned(),
    };
    assert!(wants_remote(&repo));
    assert!(!wants_remote(&Repo { remote_url: Some("git@x:y".to_owned()), ..repo.clone() }));
    assert!(!wants_remote(&Repo { kind: RepoKind::Svn, ..repo.clone() }));
    assert!(!wants_remote(&Repo { local_path: None, ..repo }));
}

#[test]
fn a_pass_that_could_not_run_says_why() {
    assert_eq!(
        AutopilotError::Store { source: "locked".to_owned() }.describe(),
        "could not read the local database: locked\n  try: revlocal db migrate"
    );
    assert_eq!(AutopilotError::Execute { detail: "no".to_owned() }.describe(), "no");
}
