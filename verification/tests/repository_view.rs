//! One repository in detail.

use revlocal_daemon::clock::Timestamp;
use revlocal_daemon::dashboard::BudgetBar;
use revlocal_daemon::model::{
    AutonomyMode, Category, Depth, EngineKind, Repo, RepoConfig, RepoKind, Run, RunStatus, TriggerSource, Usage,
};
use revlocal_daemon::poll::{HealthReport, RepoHealth};
use revlocal_daemon::repository_view::{
    gather, hook_status, triggers, unreadable_config, watching, RepositoryError, TriggerState, TriggerStatus,
    Watching,
};
use revlocal_daemon::view::RepoView;

fn config() -> RepoConfig {
    RepoConfig {
        deep_file_limit: 150,
        sensitive_globs: vec!["**/auth/**".to_owned()],
        deep_labels: Vec::new(),
        max_file_diff_bytes: 64_000,
        max_total_diff_bytes: 512_000,
        max_convention_bytes: 32_000,
        convention_files: Vec::new(),
        scope: vec![Category::Correctness, Category::Security],
        branches: vec!["main".to_owned(), "release/*".to_owned()],
        watch_branches: false,
        webhook_enabled: false,
        webhook_secret_ref: None,
        targets: Vec::new(),
        andare_project: None,
        trama_space: None,
        trama_publish: false,
    }
}


fn repo(kind: RepoKind) -> Repo {
    Repo {
        id: 1,
        name: "acme".to_owned(),
        kind,
        local_path: Some("/nowhere/acme".to_owned()),
        remote_url: None,
        default_branch: Some("main".to_owned()),
        engine: EngineKind::mock(),
        autonomy: AutonomyMode::DryRun,
        enabled: true,
        config_json: "{}".to_owned(),
    }
}

fn no_hooks() -> Result<Vec<String>, String> {
    Ok(Vec::new())
}

fn healthy() -> HealthReport {
    HealthReport {
        repo: "acme".to_owned(),
        health: RepoHealth::Healthy,
        poll_interval_secs: 300,
        configured_interval_clamped: false,
        next_poll_in_secs: 120,
        consecutive_failures: 0,
        last_error: None,
        notes: Vec::new(),
    }
}

fn find<'a>(statuses: &'a [TriggerStatus], name: &str) -> &'a TriggerStatus {
    statuses
        .iter()
        .find(|s| s.trigger == name)
        .unwrap_or_else(|| panic!("no {name} indicator"))
}

#[test]
fn repository_has_one_indicator_per_trigger() {
    let statuses = triggers(
        &repo(RepoKind::Git),
        &config(),
        &healthy(),
        &no_hooks(),
        0,
    );

    let names: Vec<&str> = statuses.iter().map(|s| s.trigger.as_str()).collect();
    assert_eq!(names, vec!["poll", "hooks", "webhook", "manual"]);
}

#[test]
fn repository_a_broken_webhook_does_not_dim_the_poller() {
    let config = RepoConfig {
        webhook_enabled: true,
        webhook_secret_ref: None,
        ..config()
    };

    let statuses = triggers(&repo(RepoKind::Git), &config, &healthy(), &no_hooks(), 8080);

    assert_eq!(find(&statuses, "webhook").state, TriggerState::Broken);
    assert_eq!(find(&statuses, "poll").state, TriggerState::Active);
    assert_eq!(find(&statuses, "manual").state, TriggerState::Active);
}

#[test]
fn repository_a_failing_poller_does_not_dim_the_webhook() {
    let config = RepoConfig {
        webhook_enabled: true,
        webhook_secret_ref: Some("keychain:acme".to_owned()),
        ..config()
    };
    let failing = HealthReport {
        consecutive_failures: 3,
        last_error: Some("connection refused".to_owned()),
        ..healthy()
    };

    let statuses = triggers(&repo(RepoKind::Git), &config, &failing, &no_hooks(), 8080);

    assert_eq!(find(&statuses, "poll").state, TriggerState::Broken);
    assert!(find(&statuses, "poll")
        .detail
        .contains("connection refused"));
    assert_eq!(find(&statuses, "webhook").state, TriggerState::Active);
}

#[test]
fn repository_enabled_webhook_with_no_listener_is_broken_not_off() {
    let config = RepoConfig {
        webhook_enabled: true,
        webhook_secret_ref: Some("keychain:acme".to_owned()),
        ..config()
    };

    let statuses = triggers(&repo(RepoKind::Git), &config, &healthy(), &no_hooks(), 0);

    assert_eq!(find(&statuses, "webhook").state, TriggerState::Broken);
    assert!(find(&statuses, "webhook").detail.contains("webhook_port"));
}

#[test]
fn repository_a_disabled_repo_stops_polling_and_nothing_else() {
    let mut disabled = repo(RepoKind::Git);
    disabled.enabled = false;

    let statuses = triggers(
        &disabled,
        &config(),
        &healthy(),
        &no_hooks(),
        0,
    );

    assert_eq!(find(&statuses, "poll").state, TriggerState::Off);
    assert_eq!(find(&statuses, "manual").state, TriggerState::Active);
}

#[test]
fn repository_svn_hooks_are_not_applicable_rather_than_missing() {
    let statuses = triggers(
        &repo(RepoKind::Svn),
        &config(),
        &healthy(),
        &no_hooks(),
        8080,
    );

    assert_eq!(find(&statuses, "hooks").state, TriggerState::NotApplicable);
    assert_eq!(
        find(&statuses, "webhook").state,
        TriggerState::NotApplicable
    );
    assert_eq!(find(&statuses, "poll").state, TriggerState::Active);
}

#[test]
fn repository_svn_watches_paths_and_git_watches_branches() {
    let git = watching(
        &repo(RepoKind::Git),
        &RepoConfig {
            branches: vec!["main".to_owned(), "release/*".to_owned()],
            ..config()
        },
    );
    assert_eq!(
        git,
        Watching::Branches {
            globs: vec!["main".to_owned(), "release/*".to_owned()]
        }
    );

    let trunk_only = watching(
        &repo(RepoKind::Svn),
        &RepoConfig {
            watch_branches: false,
            ..config()
        },
    );
    assert_eq!(
        trunk_only,
        Watching::Paths {
            paths: vec!["trunk".to_owned()]
        }
    );

    let with_branches = watching(
        &repo(RepoKind::Svn),
        &RepoConfig {
            watch_branches: true,
            ..config()
        },
    );
    assert_eq!(
        with_branches,
        Watching::Paths {
            paths: vec!["trunk".to_owned(), "branches/*".to_owned()]
        }
    );
}

#[test]
fn repository_an_svn_config_never_reports_git_branch_globs() {
    let svn = watching(
        &repo(RepoKind::Svn),
        &RepoConfig {
            branches: vec!["main".to_owned()],
            watch_branches: false,
            ..config()
        },
    );

    match svn {
        Watching::Paths { paths } => assert_eq!(paths, vec!["trunk".to_owned()]),
        Watching::Branches { .. } => panic!("an SVN repository must not report branches"),
    }
}


#[test]
fn repository_invalid_config_says_where() {
    let error = serde_json::from_str::<std::collections::BTreeMap<String, u64>>(r#"{"poll_interval_secs": "soon"}"#)
        .expect_err("a string is not an interval");
    let text = unreadable_config(error.line(), error.column(), &error.to_string()).describe();

    assert!(text.contains("line"), "no position in {text:?}");
    assert!(text.contains("column"), "no position in {text:?}");
    assert!(text.starts_with("line 1, column 29: "), "{text}");
}

#[test]
fn repository_hooks_are_named_not_counted() {
    let path = Some("/home/acme".to_owned());
    let installed = hook_status(&path, &Ok(vec!["post-commit".to_owned(), "post-merge".to_owned()]));
    assert_eq!(installed.state, TriggerState::Active);
    assert_eq!(installed.detail, "installed: post-commit, post-merge");

    assert_eq!(hook_status(&path, &Err("denied".to_owned())).state, TriggerState::Broken);
    assert_eq!(hook_status(&None, &no_hooks()).state, TriggerState::Off);
    assert_eq!(
        hook_status(&path, &no_hooks()).detail,
        "no rev-local hook is installed; try: revlocal hooks install"
    );
}

fn run(id: i64) -> Run {
    Run {
        id,
        change_id: 3,
        attempt: 1,
        status: RunStatus::Queued,
        engine: EngineKind::mock(),
        depth: Depth::Standard,
        trigger: TriggerSource::Hook,
        skip_reason: None,
        error: None,
        error_detail: None,
        degraded: None,
        usage: Usage { tokens_in: 0, tokens_out: 0, tokens_known: true, cost_bits: None },
        started_at: None,
        finished_at: None,
        transcript_path: None,
        truncated: false,
        omitted_files: Vec::new(),
        verdict: None,
        summary: None,
        created_at: Timestamp::at(0, 0),
    }
}

#[test]
fn repository_says_whether_there_are_older_runs() {
    let repo = Repo { config_json: "{not json".to_owned(), ..repo(RepoKind::Git) };
    let bar = BudgetBar { runs: 0, runs_limit: 0, tokens: 0, tokens_limit: 0, tokens_known: true };
    let ten: Vec<Run> = (0..10).map(run).collect();
    let eleven: Vec<Run> = (0..11).map(run).collect();

    let all = gather(RepoView::of(&repo, None, 1), &repo, &config(), &no_hooks(), 0, &ten, bar, Some("{}"));
    assert_eq!(all.recent_runs.len(), 10);
    assert!(!all.more_runs);
    let some = gather(RepoView::of(&repo, None, 1), &repo, &config(), &no_hooks(), 0, &eleven, bar, None);
    assert_eq!(some.recent_runs.len(), 10);
    assert!(some.more_runs);
    assert_eq!(all.config_json, "{}");
    assert_eq!(some.config_json, "{not json", "what cannot be read is shown as it is stored");
    assert_eq!(some.recent_runs[0].trigger, "hook");
    assert_eq!(some.last_run.expect("one").run_id, 0);
}

#[test]
fn repository_errors_say_what_to_try() {
    assert_eq!(
        RepositoryError::NoSuchRepo { id: 4 }.describe(),
        "no repository with id 4\n  try: revlocal repo list"
    );
    assert!(RepositoryError::Store { source: "x".to_owned() }.describe().contains("db migrate"));
}
