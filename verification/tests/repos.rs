//! The repositories that are watched.

use revlocal_daemon::model::{AutonomyMode, EngineKind, Repo, RepoKind};
use revlocal_daemon::repos::{
    add, branches_config, checkout_is_present, checkout_missing_detail, default_autonomy, defaults, derive_name, find_repo, free_name,
    looks_like_url, publishing_note, queued_split, remove, render_human, render_scan, run,
    set_default_autonomy, QueuedRuns, RepoCommandError, RepoSettings, Scan,
};
use revlocal_daemon::view::RepoView;

const CODEX: EngineKind = EngineKind { name: "codex" };

fn engines() -> Vec<EngineKind> {
    vec![CODEX, EngineKind::mock()]
}

fn repo(name: &str) -> Repo {
    Repo {
        id: 7,
        name: name.to_owned(),
        kind: RepoKind::Git,
        local_path: Some(format!("/src/{name}")),
        remote_url: None,
        default_branch: Some("main".to_owned()),
        engine: CODEX,
        autonomy: AutonomyMode::DryRun,
        enabled: true,
        config_json: "{}".to_owned(),
    }
}

#[test]
fn a_checkout_is_added_with_its_branch_and_remote() {
    let plan = add("/src/acme.git/", "git", None, "codex", None, AutonomyMode::Auto, &engines(), &vec![])
        .expect("planned");
    assert_eq!(plan.name, "acme");
    assert!(plan.asks_git());
    let row = plan.finish(Some("git@x:acme".to_owned()), Some("master".to_owned()));
    assert_eq!(row.local_path.as_deref(), Some("/src/acme.git/"));
    assert_eq!(row.remote_url.as_deref(), Some("git@x:acme"));
    assert_eq!(row.config_json, "{\"branches\":[\"master\",\"main\",\"release/*\"]}");
    assert!(row.enabled);
    assert_eq!(
        plan.added(3).detail,
        "added acme (git), engine codex, autonomy auto — findings are published without asking"
    );
}

#[test]
fn an_address_is_added_as_a_remote() {
    let plan = add(
        "https://example.com/acme.git",
        "github",
        Some("mine"),
        "mock",
        Some("off"),
        AutonomyMode::Auto,
        &engines(),
        &vec![],
    )
    .expect("planned");
    assert!(!plan.asks_git());
    let row = plan.finish(None, None);
    assert_eq!((row.name.as_str(), row.local_path), ("mine", None));
    assert_eq!(row.remote_url.as_deref(), Some("https://example.com/acme.git"));
    assert_eq!(row.config_json, "{}");
}

#[test]
fn a_bad_value_names_the_good_ones() {
    let bad = add("/a", "hg", None, "codex", None, AutonomyMode::Off, &engines(), &vec![]).expect_err("refused");
    assert_eq!(bad.describe(), "kind `hg` is not one of: git, github, svn\n  try: one of those");
    let engine = add("/a", "git", None, "x", None, AutonomyMode::Off, &engines(), &vec![]).expect_err("refused");
    assert!(engine.describe().starts_with("engine `x` is not one of: codex, mock"));
    let taken = add("/a", "git", None, "codex", None, AutonomyMode::Off, &engines(), &vec!["a".to_owned()])
        .expect_err("refused");
    assert_eq!(
        taken.describe(),
        "a repository named a is already configured\n  try: pick another --name, or `revlocal repo remove a` \
         first"
    );
}

#[test]
fn settings_are_changed_by_pairs() {
    let before = || RepoSettings {
        engine: CODEX,
        autonomy: AutonomyMode::DryRun,
        enabled: true,
        default_branch: None,
    };
    let pairs = vec![
        "engine=mock".to_owned(),
        "autonomy=auto".to_owned(),
        "enabled=no".to_owned(),
        "default_branch=a=b".to_owned(),
    ];
    let (after, report) = revlocal_daemon::repos::set(7, "acme", before(), &pairs, &engines()).expect("set");
    assert_eq!(after.engine, EngineKind::mock());
    assert_eq!(after.autonomy, AutonomyMode::Auto);
    assert!(!after.enabled);
    assert_eq!(after.default_branch.as_deref(), Some("a=b"));
    assert_eq!(report.detail, "acme: engine=mock, autonomy=auto, enabled=false, default_branch=a=b");

    let pair = revlocal_daemon::repos::set(7, "acme", before(), &vec!["engine".to_owned()], &engines()).expect_err("refused");
    assert_eq!(
        pair.describe(),
        "`engine` is not a `key=value` pair\n  try: revlocal repo set <name> engine=codex autonomy=dry_run"
    );
    let key = revlocal_daemon::repos::set(7, "acme", before(), &vec!["colour=red".to_owned()], &engines()).expect_err("refused");
    assert_eq!(
        key.describe(),
        "key `colour` is not one of: engine, autonomy, enabled, default_branch\n  try: one of those"
    );
}

#[test]
fn a_repository_is_found_by_its_name() {
    let all = vec![repo("acme"), repo("other")];
    assert_eq!(find_repo(&all, "other").expect("found"), 1);
    assert_eq!(
        find_repo(&all, "none").expect_err("absent").describe(),
        "no repository named none is configured\n  try: revlocal repo show"
    );
    assert!(remove(7, "acme").detail.starts_with("removed acme. Its runs and findings are gone with it"));
    assert_eq!(
        RepoCommandError::Store { source: "x".to_owned() }.describe(),
        "could not read the repository list: x\n  try: revlocal db migrate"
    );
    assert_eq!(
        RepoCommandError::Unrenderable { source: "x".to_owned() }.describe(),
        "could not render the report: x"
    );
}

#[test]
fn the_list_is_rendered() {
    assert_eq!(
        render_human(&vec![]),
        "no repositories are configured\n  try: revlocal repo add --help\n"
    );
    let off = Repo { enabled: false, ..repo("acme") };
    let view = RepoView::of(&off, Some(10), 31);
    let text = render_human(&vec![view.clone()]);
    assert!(text.starts_with(
        "acme  [healthy]\n  git · engine codex · autonomy dry_run · DISABLED\n  poll every 30s, next in about \
         31s\n  note: "
    ));
    assert_eq!(run(vec![view.clone()], Some("acme")).expect("one"), [view.clone()]);
    assert!(matches!(run(vec![view], Some("x")), Err(RepoCommandError::NoSuchRepo { .. })));
}

#[test]
fn names_are_derived() {
    for (given, name) in [
        ("/src/acme", "acme"),
        ("/src/acme.git//", "acme"),
        ("git@host:org/acme.git", "acme"),
        ("C:\\work\\acme", "acme"),
        ("/", "repo"),
        ("", "repo"),
    ] {
        assert_eq!(derive_name(given), name, "{given}");
    }
    assert!(looks_like_url("ssh://x") && looks_like_url("git@x:y") && !looks_like_url("/src/acme"));
}

#[test]
fn branches_are_pinned_only_where_the_defaults_miss() {
    assert_eq!(branches_config(None), "{}");
    assert_eq!(branches_config(Some("main")), "{}");
    assert_eq!(branches_config(Some("release/*")), "{}");
    assert_eq!(branches_config(Some("trunk")), "{\"branches\":[\"trunk\",\"main\",\"release/*\"]}");
}

#[test]
fn a_default_that_is_unset_or_unreadable_is_the_safe_one() {
    assert_eq!(default_autonomy(None), AutonomyMode::DryRun);
    assert_eq!(default_autonomy(Some(" auto\n")), AutonomyMode::Auto);
    assert_eq!(default_autonomy(Some("wild")), AutonomyMode::DryRun);
    assert_eq!(set_default_autonomy("off").expect("a mode"), AutonomyMode::Off);
    assert!(set_default_autonomy("wild").is_err());
    assert_eq!(
        defaults(AutonomyMode::DryRun, false).detail,
        "repositories added without --autonomy get `dry_run` (the default default) — findings are recorded, \
         nothing is published until you widen it"
    );
    assert_eq!(publishing_note(AutonomyMode::Off), " — reviews are off for it");
}

#[test]
fn a_checkout_is_there_or_needs_none() {
    assert!(checkout_is_present(&None, false));
    assert!(checkout_is_present(&Some("/src".to_owned()), true));
    assert!(!checkout_is_present(&Some("/src".to_owned()), false));
    assert!(!checkout_is_present(&Some(String::new()), true));
    assert_eq!(
        checkout_missing_detail("acme", &None),
        "acme: the checkout is gone — no path recorded\n  try: put it back, point the repository at its new \
         location, or disable it"
    );
}

#[test]
fn queued_runs_are_split_by_whether_they_can_go() {
    let runs = |queued, enabled, present| QueuedRuns { queued, enabled, present };
    assert_eq!(
        queued_split(&vec![runs(3, true, true), runs(2, false, true), runs(4, true, false), runs(0, true, true)]),
        (3, 6)
    );
    assert_eq!(queued_split(&vec![runs(u32::MAX, true, true), runs(5, true, true)]), (u32::MAX, 0));
}

fn words(parts: &[&str]) -> Vec<String> {
    parts.iter().map(|p| (*p).to_owned()).collect()
}

fn path(parts: &[&str]) -> Vec<String> {
    parts.iter().rev().map(|p| (*p).to_owned()).collect()
}

#[test]
fn a_name_grows_until_it_is_free() {
    let parts = path(&["/", "home", "me", "work", "api"]);
    assert_eq!(free_name(&parts, &vec![]).as_deref(), Some("api"));
    assert_eq!(free_name(&parts, &words(&["api"])).as_deref(), Some("work-api"));
    assert_eq!(free_name(&parts, &words(&["api", "work-api", "me-work-api"])), None);
    assert_eq!(free_name(&path(&["/"]), &vec![]), None);
}

#[test]
fn a_preview_names_what_a_scan_adds() {
    let begin = |dry_run| {
        Scan::begin(
            "/w",
            2,
            "codex",
            None,
            AutonomyMode::DryRun,
            &engines(),
            dry_run,
            vec!["api".to_owned()],
            1,
            2,
        )
        .expect("begun")
        .0
    };
    let mut preview = begin(true);
    assert_eq!(preview.consider("/w/api", RepoKind::Git, false, &path(&["/", "w", "api"])), None);
    assert_eq!(preview.consider("/w/old", RepoKind::Git, true, &path(&["/", "w", "old"])), None);
    assert_eq!(
        render_scan(&preview.report),
        "would add /w/api as w-api\nskipped  /w/old — already configured\n\n1 to add, 1 skipped, autonomy \
         dry_run — nothing was written; run it again without --dry-run\n  1 director(ies) were not looked \
         inside at depth 2 — try --depth; 2 could not be read at all\n"
    );

    let mut real = begin(false);
    let name = real
        .consider("/w/api", RepoKind::Git, false, &path(&["/", "w", "api"]))
        .expect("a name to add under");
    assert_eq!(name, "w-api");
    real.settled("/w/api", RepoKind::Git, &name, Ok(()));
    real.settled("/w/b", RepoKind::Svn, "b", Err("locked".to_owned()));
    assert_eq!((real.report.added, real.report.skipped), (1, 1));
    assert_eq!(real.report.entries[1].reason.as_deref(), Some("locked"));
    assert_eq!(real.taken, ["api", "w-api"]);
}

#[test]
fn a_scan_that_found_nothing_says_so() {
    let (scan, engine, mode) = Scan::begin(
        "/w",
        3,
        "mock",
        Some("auto"),
        AutonomyMode::Off,
        &engines(),
        false,
        vec![],
        0,
        0,
    )
    .expect("begun");
    assert_eq!((engine, mode), (EngineKind::mock(), AutonomyMode::Auto));
    assert_eq!(
        render_scan(&scan.report),
        "no git or Subversion checkouts under /w (depth 3)\n  try: --depth, or check the path\n"
    );
    assert!(Scan::begin("/w", 3, "x", None, AutonomyMode::Off, &engines(), true, vec![], 0, 0).is_err());
}
