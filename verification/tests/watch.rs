//! Watching: how often, what was interrupted, who may ask, and what is shown of it.

use revlocal_daemon::budgets::{BudgetSettings, LedgerEntry};
use revlocal_daemon::clock::Timestamp;
use revlocal_daemon::dashboard::{budget_bar, card, gather, render_budget, DashboardError};
use revlocal_daemon::executor::queued_run;
use revlocal_daemon::model::{
    AutonomyMode, EngineKind, OnExhausted, Repo, RepoKind, Run, RunStatus, TriggerSource, Verdict,
};
use revlocal_daemon::poll::{jitter_steps, PollInterval, PollSchedule, RepoHealth, DEFAULT_POLL_INTERVAL_SECS};
use revlocal_daemon::startup::{
    desktop_entry, disable, enable, entry_path, launch_agent, status, StartupError, Status,
};
use revlocal_daemon::state_machine::{
    max_attempts_from, recover, stage_changed, stale_before, NullSink, Recovery, RecoveryReport, RunEvent,
    RunEventSink,
};
use revlocal_daemon::trigger_receiver::{
    answer, authorise, constant_time_eq, handle_trigger, port_in_use, BindError, RepoSecret, TriggerRequest,
    ACCEPTED, INTERNAL_ERROR, UNAUTHORIZED,
};
use revlocal_daemon::view::{report_for, schedule_for, RepoView};

fn now() -> Timestamp {
    Timestamp::at(1_788_000_000, 0)
}

#[test]
fn a_failing_repository_backs_off_and_comes_back() {
    let mut schedule = PollSchedule::new(1, 120);
    let mut delays = Vec::new();
    for _ in 0..6 {
        delays.push(schedule.base_delay());
        schedule.failed("timed out");
    }
    assert_eq!(delays, [120, 240, 480, 960, 1_800, 1_800]);
    assert_eq!(schedule.health(), RepoHealth::Degraded);
    let report = schedule.health_report("acme", 1_790);
    assert_eq!((report.consecutive_failures, report.last_error.as_deref()), (6, Some("timed out")));
    schedule.succeeded();
    assert_eq!((schedule.base_delay(), schedule.polls), (120, 7));
    assert_eq!(schedule.health().as_str(), "healthy");
}

#[test]
fn an_interval_below_the_minimum_is_raised_and_said() {
    let raised = PollInterval::clamp(5);
    assert_eq!(raised.secs, 30);
    assert_eq!(
        raised.warning.as_deref(),
        Some(
            "poll_interval_secs = 5 is below the 30s minimum (SPEC §7.1) and was raised to 30s; \
             polling faster than this gets the account rate-limited"
        )
    );
    assert!(!PollInterval::clamp(30).was_clamped());
    assert_eq!(PollInterval::default().secs, DEFAULT_POLL_INTERVAL_SECS);
}

#[test]
fn jitter_is_fixed_and_spread() {
    assert_eq!(jitter_steps(0, 0), 0);
    assert_eq!(jitter_steps(0, 1), 0x5692_161D_100B_05E5 >> 11);
    assert_ne!(jitter_steps(1, 0), jitter_steps(2, 0));
    assert_eq!(jitter_steps(-1, 3), jitter_steps(-1, 3));
}

fn stuck(attempt: u32) -> Run {
    Run {
        id: 9,
        attempt,
        status: RunStatus::Reviewing,
        error_detail: Some("said".to_owned()),
        started_at: Some(now()),
        summary: Some("half".to_owned()),
        ..queued_run(5, EngineKind::mock(), TriggerSource::Hook, Timestamp::at(1, 0))
    }
}

#[test]
fn an_interrupted_run_is_tried_again_until_it_is_not() {
    match recover(&stuck(2), 3, now()) {
        Recovery::Retry(next) => {
            assert_eq!((next.id, next.attempt, next.status), (0, 3, RunStatus::Queued));
            assert_eq!((next.started_at, next.summary, next.created_at), (None, None, now()));
            assert_eq!((next.change_id, next.trigger), (5, TriggerSource::Hook));
            assert_eq!((next.error, next.error_detail), (None, None), "a retry starts clean");
        }
        other => panic!("{other:?}"),
    }
    assert!(matches!(recover(&stuck(3), 3, now()), Recovery::GiveUp));
    assert_eq!((max_attempts_from(0), max_attempts_from(4)), (1, 4));
}

#[test]
fn recovery_says_what_it_did() {
    let mut report = RecoveryReport::new();
    assert!(report.is_empty());
    let run = stuck(3);
    assert_eq!(report.found(&run), RunEvent::Interrupted { run: 9, stuck_in: RunStatus::Reviewing });
    let given_up = report.exhausted(&run, 3);
    let reason = "attempt 3 of 3 was interrupted in `reviewing`; not retrying, because a change that keeps \
                  interrupting the daemon will keep interrupting it";
    assert_eq!(given_up, RunEvent::GivenUp { run: 9, reason: reason.to_owned() });
    assert_eq!(report.retried(&run, 12, 4), RunEvent::ReEnqueued { previous: 9, run: 12, attempt: 4 });
    report.already_retried(&run, 4);
    assert_eq!(report.interrupted, [9]);
    assert_eq!(report.re_enqueued, [12]);
    assert_eq!(report.given_up[1].1, "attempt 4 already exists; a previous recovery pass created it");
    NullSink.emit(given_up);
    assert_eq!(stale_before(now(), 60_000_000_000), Timestamp::at(1_788_000_000 - 60, 0));
    assert_eq!(
        stage_changed(9, RunStatus::Queued, RunStatus::Preparing),
        RunEvent::StageChanged { run: 9, from: RunStatus::Queued, to: RunStatus::Preparing }
    );
}

fn secrets() -> Vec<(String, RepoSecret)> {
    vec![
        ("acme".to_owned(), RepoSecret { repo_id: 7, secret: "s3".to_owned() }),
        ("open".to_owned(), RepoSecret { repo_id: 8, secret: String::new() }),
    ]
}

fn request(repo: &str, hint: Option<&str>) -> TriggerRequest {
    TriggerRequest { repo: repo.to_owned(), hint: hint.map(str::to_owned) }
}

#[test]
fn only_the_right_secret_is_let_in() {
    assert_eq!(authorise(&secrets(), "acme", "s3"), Some(7));
    assert_eq!(authorise(&secrets(), "acme", "s4"), None);
    assert_eq!(authorise(&secrets(), "open", ""), None, "an empty secret lets nobody in");
    assert_eq!(authorise(&secrets(), "none", ""), None);

    let event = handle_trigger(&secrets(), Some("s3"), &request("acme", Some("abc")), now()).expect("let in");
    assert_eq!((event.repo_id, event.source, event.hint.as_deref()), (7, TriggerSource::Hook, Some("abc")));
    let unknown = handle_trigger(&secrets(), Some("s3"), &request("none", None), now()).expect_err("refused");
    let wrong = handle_trigger(&secrets(), None, &request("acme", None), now()).expect_err("refused");
    assert_eq!(unknown, wrong, "a refusal tells nothing");
    assert_eq!((wrong.0, wrong.1.detail.as_str()), (UNAUTHORIZED, "unknown repository or incorrect secret"));
}

#[test]
fn an_event_that_was_taken_is_accepted() {
    let (code, body) = answer(Some("Scheduled"));
    assert_eq!((code, body.accepted, body.detail.as_str()), (ACCEPTED, true, "Scheduled"));
    let (code, body) = answer(None);
    assert_eq!((code, body.accepted, body.detail.as_str()), (INTERNAL_ERROR, false, "the trigger bus is unavailable"));
    assert!(constant_time_eq(b"abc", b"abc"));
    assert!(!constant_time_eq(b"abc", b"abd") && !constant_time_eq(b"abc", b"ab"));
}

#[test]
fn a_port_in_use_comes_with_another() {
    assert!(port_in_use(80, Some(5_000)).describe().starts_with(
        "port 80 is already in use, so the git-hook trigger receiver cannot start\n  try: set \
         global.trigger_port = 5000 in your config, or stop whatever is on 80 (lsof -i :80)"
    ));
    assert_eq!(port_in_use(80, None), BindError::PortInUse { port: 80, suggestion: 81 });
    assert_eq!(port_in_use(u16::MAX, None), BindError::PortInUse { port: u16::MAX, suggestion: u16::MAX });
    assert_eq!(
        BindError::Failed { port: 80, source: "denied".to_owned() }.describe(),
        "could not bind 127.0.0.1:80: denied"
    );
}

#[test]
fn starting_at_login_is_a_file() {
    assert_eq!(
        entry_path("/home/me", "linux").as_deref(),
        Some("/home/me/.config/autostart/rev-local.desktop")
    );
    assert_eq!(
        entry_path("/Users/me", "macos").as_deref(),
        Some("/Users/me/Library/LaunchAgents/com.dwmmholdings.revlocal.plist")
    );
    assert_eq!(entry_path("C:", "windows"), None);
    let (path, body) = enable("/home/me", "linux", "/opt/rev").expect("supported");
    assert_eq!(path, disable("/home/me", "linux").expect("supported"));
    assert_eq!(body, desktop_entry("/opt/rev"));
    assert_eq!(
        body,
        "[Desktop Entry]\nType=Application\nName=rev-local\nComment=Local, autonomous code \
         review\nExec=/opt/rev\nTerminal=false\nX-GNOME-Autostart-enabled=true\n"
    );
    assert_eq!(enable("/Users/me", "macos", "/A.app").expect("supported").1, launch_agent("/A.app"));
    assert!(launch_agent("/A.app").contains("    <string>/A.app</string>\n  </array>\n"));
    assert_eq!(status("linux", true), Status::Enabled);
    assert_eq!(status("linux", false), Status::Disabled);
    assert_eq!(status("windows", true), Status::Unsupported);
    let refused = enable("C:", "windows", "x").expect_err("unsupported");
    assert!(refused.describe().starts_with("starting at login is not implemented on this platform yet"));
    assert_eq!(
        StartupError::Io { action: "write", path: "/p".to_owned(), source: "denied".to_owned() }.describe(),
        "could not write the login item at /p: denied\n  try: check the directory is writable"
    );
}

fn repo() -> Repo {
    Repo {
        id: 7,
        name: "acme".to_owned(),
        kind: RepoKind::Git,
        local_path: None,
        remote_url: None,
        default_branch: None,
        engine: EngineKind::mock(),
        autonomy: AutonomyMode::Auto,
        enabled: true,
        config_json: "{}".to_owned(),
    }
}

#[test]
fn a_repository_without_an_interval_polls_at_the_default() {
    assert_eq!(schedule_for(&repo(), None).interval.secs, DEFAULT_POLL_INTERVAL_SECS);
    let report = report_for(&repo(), Some(10), 33);
    assert_eq!((report.poll_interval_secs, report.next_poll_in_secs), (30, 33));
    assert!(report.configured_interval_clamped);
    assert_eq!(report.notes.len(), 1);
}

#[test]
fn a_dashboard_shows_each_repository() {
    let budgets =
        BudgetSettings { daily_runs_per_repo: 10, daily_tokens_per_repo: 0, on_exhausted: OnExhausted::Pause };
    let entry = LedgerEntry { runs: 3, tokens_in: 60, tokens_out: 40 };
    let hedged = budget_bar(Some(&entry), false, &budgets);
    assert_eq!(
        render_budget(&hedged),
        "today: 3 of 10 runs, 100 tokens (at least — a run today reported no count)"
    );
    let last = Run {
        id: 12,
        status: RunStatus::Done,
        verdict: Some(Verdict { name: "approve", blocking: false }),
        finished_at: Some(now()),
        ..stuck(1)
    };
    let view = RepoView::of(&repo(), Some(60), 59);
    let with_run = card(view.clone(), &vec![last], 4, hedged);
    assert_eq!(
        with_run.last_run.as_ref().expect("a run").finished_at.as_deref(),
        Some("2026-08-29T10:40:00+00:00")
    );
    let fresh = card(view, &vec![], 0, budget_bar(None, true, &budgets));
    let board = gather(vec![with_run, fresh], Some("dry_run"), true);
    assert_eq!(
        board.render_human(),
        "mode: dry_run  [PAUSED — revlocal resume]\n\nacme  [healthy]\n  last run #12 done (approve)\n  queued: \
         4\n  today: 3 of 10 runs, 100 tokens (at least — a run today reported no count)\nacme  [healthy]\n  no \
         runs yet\n  queued: 0\n  today: 0 of 10 runs, 0 tokens\n"
    );
    let empty = gather(vec![], Some("wild"), false);
    assert_eq!(empty.mode, "auto_low_ask_high");
    assert!(empty.render_human().ends_with("no repositories are configured\n  try: revlocal repo add --help\n"));
    assert_eq!(
        DashboardError::Store { source: "x".to_owned() }.describe(),
        "could not read the local database: x\n  try: revlocal db migrate"
    );
    assert_eq!(
        DashboardError::Unrenderable { source: "x".to_owned() }.describe(),
        "could not render the dashboard: x"
    );
}
