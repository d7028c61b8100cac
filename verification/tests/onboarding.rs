//! Setting up for the first time.

use revlocal_daemon::executor::RunOutcome;
use revlocal_daemon::model::{AutonomyMode, EngineKind, RepoKind};
use revlocal_daemon::onboarding::{
    add_repo, first_review, is_first_run, no_such_repo, Draft, Onboarding, OnboardingError, Step,
};


#[test]
fn onboarding_never_defaults_a_new_repository_to_auto() {
    let draft = Draft::default();

    assert_eq!(draft.autonomy, AutonomyMode::DryRun);
    assert!(draft.is_safe_default());
}

#[test]
fn onboarding_auto_is_still_reachable_when_it_is_chosen() {
    let draft = Draft {
        autonomy: AutonomyMode::Auto,
        ..Draft::default()
    };

    assert!(!draft.is_safe_default());
}

#[test]
fn onboarding_defaults_to_an_engine_that_spends_nothing() {
    assert_eq!(Draft::default().engine, EngineKind::mock());
}

#[test]
fn onboarding_walks_the_five_steps_in_order() {
    assert_eq!(Step::ALL.len(), 5);
    assert_eq!(Step::Check.next(), Some(Step::AddRepo));
    assert_eq!(Step::AddRepo.next(), Some(Step::PickEngine));
    assert_eq!(Step::PickEngine.next(), Some(Step::PickAutonomy));
    assert_eq!(Step::PickAutonomy.next(), Some(Step::FirstReview));
    assert_eq!(Step::FirstReview.next(), None);
}

#[test]
fn onboarding_says_what_is_missing_rather_than_only_refusing() {
    let empty = Draft::default();

    let blocker = empty.blocker(Step::AddRepo).expect("a path is required");
    assert!(blocker.contains("repository"), "{blocker}");

    let chosen = Draft {
        path: "/home/me/acme".to_owned(),
        ..Draft::default()
    };
    assert!(chosen.blocker(Step::AddRepo).is_none());
}

#[test]
fn onboarding_starts_at_the_check() {
    assert_eq!(Onboarding::start(true).step, Step::Check);
}

fn outcome(engine: &str) -> RunOutcome {
    RunOutcome {
        run_id: 3,
        repo: "acme".to_owned(),
        change: "abc".to_owned(),
        status: "done".to_owned(),
        engine: engine.to_owned(),
        verdict: Some("comment".to_owned()),
        findings: 2,
        actions: 0,
        detail: None,
    }
}

#[test]
fn onboarding_a_rehearsal_says_that_it_is_one() {
    let mock = first_review(&vec![outcome("mock")], &vec![], "Codex").expect("reviewed");
    assert_eq!(
        mock.caveat.as_deref(),
        Some("This was the mock engine: it spends nothing and invents its findings. Choose Codex in Settings for a real review.")
    );
    assert_eq!(mock.findings, 2);

    let real = first_review(&vec![outcome("codex"), outcome("mock")], &vec![], "Codex").expect("reviewed");
    assert_eq!(real.caveat, None);
    assert_eq!(real.engine, "codex");
}

#[test]
fn onboarding_says_why_there_was_no_review() {
    let held = first_review(&vec![], &vec!["run #1: acme is disabled".to_owned()], "Codex").expect_err("held");
    assert_eq!(held.describe(), "run #1: acme is disabled");

    let quiet = first_review(&vec![], &vec![], "Codex").expect_err("nothing");
    assert!(quiet.describe().starts_with("there is nothing to review yet"));
    assert_eq!(no_such_repo("x"), OnboardingError::Review { detail: "no repository called x".to_owned() });
}

#[test]
fn onboarding_adds_a_repository_the_usual_way() {
    let draft = Draft { path: " /home/me/acme.git/ ".to_owned(), ..Draft::default() };
    let plan = add_repo(&draft, &vec![EngineKind::mock()], &vec![]).expect("planned");
    assert_eq!(plan.name, "acme");
    assert_eq!(plan.path_or_url, "/home/me/acme.git/");
    assert_eq!(plan.kind, RepoKind::Git);
    assert_eq!(plan.autonomy, AutonomyMode::DryRun);

    let named = Draft { name: "  other ".to_owned(), ..draft.clone() };
    assert_eq!(add_repo(&named, &vec![EngineKind::mock()], &vec![]).expect("planned").name, "other");

    let taken = add_repo(&draft, &vec![EngineKind::mock()], &vec!["acme".to_owned()]).expect_err("taken");
    assert!(taken.describe().contains("already configured"), "{}", taken.describe());
    assert!(is_first_run(0));
    assert!(!is_first_run(1));
    assert_eq!(Step::AddRepo.title(), "Choose a repository");
}
