//! What stands in the way of a review.

use revlocal_daemon::clock::Timestamp;
use revlocal_daemon::doctor::{
    engine_check, engine_presence, gather, install_checks, platform_check, required_tool_check, svn_check,
    target_check, usage_check, Check, Checkout, DoctorReport, Health, Install, Machine, Readiness,
};
use revlocal_daemon::model::EngineKind;

const CODEX: EngineKind = EngineKind { name: "codex" };

fn machine(git: bool, svn: bool) -> Machine {
    Machine {
        git,
        svn,
        node: true,
        os: "linux".to_owned(),
        engines: vec![(CODEX, Readiness::Ready { binary: "/bin/codex".to_owned() })],
        unmeasured: vec![(CODEX, "codex reports no tokens".to_owned())],
    }
}

#[test]
fn a_machine_without_svn_is_fine_without_svn_repositories() {
    let report = gather(&machine(true, false), 0);
    assert!(!report.has_failures());
    assert_eq!(report.tally(), (3, 2, 0, 1));
    assert!(report.render_human().ends_with(
        "3 ok, 2 warning(s), 0 failure(s), 1 not needed\nNothing is blocking a review.\n"
    ));

    let needed = gather(&machine(true, false), 2);
    assert!(needed.has_failures());
    assert!(needed.render_human().contains("NOT INSTALLED, and 2 SVN repository/ies are configured"));
    assert_eq!(svn_check(true, 0).detail, "available (no SVN repositories configured)");
    assert_eq!(svn_check(true, 3).detail, "available (3 SVN repository/ies configured)");
}

#[test]
fn a_missing_tool_fails_with_a_remedy() {
    let report = gather(&machine(false, true), 0);
    let git = &report.prerequisites[0];
    assert_eq!(git.health, Health::Fail);
    assert_eq!(git.detail, "not installed, and it is required for every git and GitHub repository");
    assert!(git.remediation.as_deref().expect("a remedy").starts_with("install git"));
    assert_eq!(required_tool_check("git", true, "x", "y").detail, "available");
    assert_eq!(report.all().len(), 6);
}

#[test]
fn an_engine_is_checked_step_by_step() {
    let missing = engine_check("codex", false, None, false, None, &vec![]);
    assert_eq!(missing.remediation.as_deref(), Some("install codex, or set `engines.codex.bin` to its full path"));
    let told = vec![("p".to_owned(), "brew it".to_owned())];
    assert_eq!(engine_check("codex", false, None, false, None, &told).remediation.as_deref(), Some("brew it"));
    let out = engine_check("codex", true, None, false, None, &vec![]);
    assert_eq!(out.detail, "installed (version unknown) but not logged in");
    let broken = engine_check("codex", true, Some("1.2"), true, Some(false), &vec![]);
    assert_eq!(broken.health, Health::Fail);
    let unknown = engine_check("codex", true, Some("1.2"), true, None, &vec![]);
    assert_eq!(unknown.health, Health::Warn);
    let good = engine_check("codex", true, Some("1.2"), true, Some(true), &vec![]);
    assert_eq!(good.line(), "  [ok  ] engine:codex: 1.2, logged in, output contract verified");
}

#[test]
fn a_target_is_checked() {
    assert_eq!(target_check("andare", false, 0, 0, 0).health, Health::Fail);
    let partial = target_check("andare", true, 5, 2, 1);
    assert_eq!(
        partial.line(),
        "  [warn] target:andare: 5 tool(s), 2 capability/ies mapped, 1 unmapped\n         try: run \
         `revlocal targets list --json` to see which, then `revlocal targets map andare <capability> --tool T`"
    );
    assert_eq!(target_check("andare", true, 5, 2, 0).detail, "5 tool(s), all 2 capability/ies mapped");
}

#[test]
fn presence_is_not_health() {
    let there = engine_presence(CODEX, &Readiness::Ready { binary: "/b".to_owned() });
    assert_eq!((there.health, there.detail.as_str()), (Health::Warn, "found at /b; not probed"));
    let absent = engine_presence(CODEX, &Readiness::Skip { reason: "not on PATH".to_owned() });
    assert_eq!((absent.health, absent.detail.as_str()), (Health::Warn, "not on PATH"));
    assert!(absent.remediation.expect("a remedy").starts_with("install codex, or point `engines.codex.bin`"));
    assert_eq!(usage_check(CODEX, "no").name, "engine:codex:usage");
    assert_eq!(platform_check("macos").line(), "  [ok  ] platform:macos: process-group termination available");
    assert_eq!(platform_check("windows").health, Health::Warn);
}

fn install(autopilot: Option<&str>, queued: u32, blocked: u32) -> Install {
    Install {
        autopilot: autopilot.map(str::to_owned),
        queued,
        blocked,
        repos: Ok(vec![]),
        waiting: None,
        ttl_hours: 24,
        at: Timestamp::at(1_788_000_000, 0),
    }
}

#[test]
fn queued_work_behind_a_loop_that_is_off_is_a_warning() {
    assert_eq!(install_checks(&install(Some("on"), 5, 0))[0], Check::ok("install:autopilot", "on"));
    assert_eq!(install_checks(&install(None, 0, 0))[0].detail, "off, and nothing is waiting");
    assert_eq!(
        install_checks(&install(Some("off"), 0, 3))[0].detail,
        "off; the 3 queued run(s) are blocked on a missing checkout"
    );
    let waiting = &install_checks(&install(None, 5, 2))[0];
    assert_eq!(waiting.health, Health::Warn);
    assert_eq!(
        waiting.detail,
        "off, and 5 run(s) are queued — nothing is reviewing them (2 more are blocked on a missing checkout)"
    );
}

fn checkout(name: &str, enabled: bool, gone: bool, unsupported: bool) -> Checkout {
    Checkout { name: name.to_owned(), enabled, gone, unsupported }
}

#[test]
fn the_install_names_what_is_wrong() {
    let checks = install_checks(&Install {
        repos: Ok(vec![
            checkout("a", true, true, false),
            checkout("b", true, false, true),
            checkout("c", false, true, true),
        ]),
        ..install(Some("on"), 0, 0)
    });
    assert_eq!(checks[1].detail, "1 repository rev-local cannot review yet: b");
    assert_eq!(checks[2].detail, "1 checkout(s) gone: a");

    let unread = install_checks(&Install { repos: Err("locked".to_owned()), ..install(Some("on"), 0, 0) });
    assert_eq!(unread[1].detail, "could not be read — locked");
    let fine = install_checks(&Install {
        repos: Ok(vec![checkout("a", true, false, false)]),
        ..install(Some("on"), 0, 0)
    });
    assert_eq!(fine[1].detail, "1 enabled, all present");
}

#[test]
fn an_approval_about_to_be_discarded_is_counted() {
    let now = Timestamp::at(1_788_000_000, 0);
    let old = Timestamp::at(1_788_000_000 - 24 * 3_600, 0);
    let checks = install_checks(&Install { waiting: Some(vec![now, old]), ..install(Some("on"), 0, 0) });
    assert_eq!(checks[2].detail, "2 waiting, 1 about to be discarded");
    let calm = install_checks(&Install { waiting: Some(vec![now]), ..install(Some("on"), 0, 0) });
    assert_eq!(calm[2].detail, "1 waiting");
    let none = install_checks(&Install { waiting: Some(vec![]), ..install(Some("on"), 0, 0) });
    assert_eq!(none[2], Check::ok("install:approvals", "nothing waiting"));
}

#[test]
fn a_warning_about_the_install_changes_the_verdict() {
    let report = DoctorReport {
        prerequisites: vec![],
        engines: vec![],
        targets: vec![],
        platform: vec![],
        install: vec![Check::warn("install:autopilot", "off", None)],
    };
    assert_eq!(
        report.render_human(),
        "Install\n  [warn] install:autopilot: off\n\n0 ok, 1 warning(s), 0 failure(s), 0 not needed\n\
         Nothing is blocking a review, but work is not moving — see Install above.\n"
    );
    assert!(!Check::not_needed("svn", "x").health.is_blocking());
}
