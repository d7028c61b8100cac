//! What is done next.

use std::collections::BTreeMap;

use revlocal_daemon::backfill::{
    backfill_scope, enumerated_at, live_work_pending, plan, Backfill, BackfillItem, ManualReview, Step, Sweep,
    Yielded, LIVE_STATUSES,
};
use revlocal_daemon::budgets::BudgetVerdict;
use revlocal_daemon::clock::Timestamp;
use revlocal_daemon::executor::RunOutcome;
use revlocal_daemon::model::{OnExhausted, RunStatus, TriggerSource};
use revlocal_daemon::scheduler::{Decision, Idle, Scheduler, WorldState};
use revlocal_daemon::triggers::{Admission, DiscoveryPass, TriggerBus, TriggerEvent};

fn at(ms: i64) -> Timestamp {
    Timestamp::at(1_788_000_000 + ms / 1_000, (ms % 1_000) as u32 * 1_000_000)
}

fn event(repo: i64, source: TriggerSource, ms: i64) -> TriggerEvent {
    TriggerEvent::new(repo, source, at(ms)).with_hint("abc")
}

#[test]
fn events_within_a_window_make_one_pass() {
    let mut bus = TriggerBus::new(1_500);
    assert!(bus.offer(&event(1, TriggerSource::Hook, 0)).is_scheduled());
    assert_eq!(bus.offer(&event(1, TriggerSource::Poll, 1_000)), Admission::Coalesced { repo_id: 1, folded: 2 });
    assert!(bus.offer(&event(2, TriggerSource::Hook, 100)).is_scheduled());
    assert!(bus.due_passes(at(1_499)).is_empty());

    let due = bus.due_passes(at(1_600));
    assert_eq!(
        due,
        [
            DiscoveryPass { repo_id: 1, sources: vec![TriggerSource::Hook, TriggerSource::Poll] },
            DiscoveryPass { repo_id: 2, sources: vec![TriggerSource::Hook] },
        ]
    );
    assert!(bus.due_passes(at(9_000)).is_empty(), "a pass that runs is not due again");
}

#[test]
fn a_window_that_closed_unread_keeps_its_sources() {
    let mut bus = TriggerBus::new(1_500);
    assert!(bus.offer(&event(1, TriggerSource::Hook, 0)).is_scheduled());
    assert_eq!(
        bus.offer(&event(1, TriggerSource::Poll, 2_000)),
        Admission::Scheduled { repo_id: 1, due_at: at(3_500) }
    );
    assert_eq!(bus.pending_sources(1), [TriggerSource::Hook, TriggerSource::Poll]);
    assert!(bus.due_passes(at(3_499)).is_empty());
    assert_eq!(
        bus.due_passes(at(4_000)),
        [DiscoveryPass { repo_id: 1, sources: vec![TriggerSource::Hook, TriggerSource::Poll] }]
    );
}

#[test]
fn an_event_during_a_pass_makes_a_follow_up() {
    let mut bus = TriggerBus::default();
    assert_eq!(bus.window_ms(), 1_500);
    bus.offer(&event(1, TriggerSource::Hook, 0));
    bus.due_passes(at(2_000));
    assert!(bus.is_pass_running(1));

    assert_eq!(bus.offer(&event(1, TriggerSource::Webhook, 2_100)), Admission::Queued { repo_id: 1, first: true });
    assert_eq!(bus.offer(&event(1, TriggerSource::Poll, 2_200)), Admission::Queued { repo_id: 1, first: false });
    assert!(bus.has_follow_up(1));
    let follow_up = bus.pass_finished(1, at(3_000)).expect("a follow-up");
    assert_eq!(follow_up.sources, [TriggerSource::Webhook, TriggerSource::Poll]);
    assert_eq!(bus.pass_finished(1, at(4_000)), None);
    assert!(!bus.is_pass_running(1));
    assert!(bus.pending_sources(1).is_empty());
}

fn exhausted() -> BudgetVerdict {
    BudgetVerdict::Exhausted {
        which: revlocal_daemon::budgets::Exhausted::Runs,
        action: OnExhausted::Pause,
        reason: "spent".to_owned(),
    }
}

#[test]
fn the_kill_switch_outranks_everything() {
    let mut world = WorldState::idle(1);
    world.due.push(DiscoveryPass { repo_id: 1, sources: vec![] });
    world.killed = true;
    world.running = 5;
    assert_eq!(Scheduler.tick(&world), Decision::Idle(Idle::Killed));

    world.killed = false;
    assert_eq!(Scheduler.tick(&world), Decision::Idle(Idle::AtCapacity { running: 5, limit: 1 }));
    world.running = 0;
    assert!(Scheduler.tick(&world).starts_work());
    world.budgets = BTreeMap::from([(1, exhausted())]);
    let held = Scheduler.tick(&world);
    assert_eq!(held, Decision::Idle(Idle::Budget { repo_id: 1, reason: "spent".to_owned() }));
    match held {
        Decision::Idle(idle) => {
            assert!(idle.needs_attention());
            assert_eq!(idle.summary_line(), "holding repo 1: spent");
        }
        other => panic!("{other:?}"),
    }
}

#[test]
fn backfill_goes_behind_live_work() {
    let mut world = WorldState::idle(2);
    assert_eq!(Scheduler.tick(&world), Decision::Idle(Idle::NothingToDo));
    world.backfill_waiting.push(7);
    assert_eq!(Scheduler.tick(&world), Decision::Backfill { repo_id: 7 });
    world.due.push(DiscoveryPass { repo_id: 1, sources: vec![] });
    assert!(world.has_live_work());
    assert!(matches!(Scheduler.tick(&world), Decision::Discover(_)));
    assert_eq!(Scheduler.backfill_yield(&world, 7), Some(Yielded::LiveWorkPending));
    assert!(live_work_pending(&vec![(RunStatus::Queued, TriggerSource::Hook)]));
    for status in LIVE_STATUSES {
        assert!(live_work_pending(&vec![(status, TriggerSource::Poll)]));
        assert!(!live_work_pending(&vec![(status, TriggerSource::Backfill)]));
    }
    assert!(!live_work_pending(&vec![(RunStatus::Publishing, TriggerSource::Poll)]));
    assert!(!live_work_pending(&vec![
        (RunStatus::Done, TriggerSource::Hook),
        (RunStatus::Queued, TriggerSource::Backfill),
    ]));
}

fn items(n: usize) -> Vec<BackfillItem> {
    (0..n)
        .map(|i| BackfillItem {
            external_id: format!("c{i}"),
            summary: format!("change {i}"),
        })
        .collect()
}

#[test]
fn a_limited_plan_says_what_it_leaves_out() {
    let limited = plan(1, &backfill_scope("commits:main"), &items(5), None, Some(2));
    assert_eq!(limited.len(), 2);
    assert_eq!(limited.excluded_by_limit, 3);
    let lines = limited.summary_lines();
    assert!(lines[0].contains("2 change(s) to review"), "{lines:?}");
    assert_eq!(lines[1], "  3 more match --since and were excluded by --limit");
    assert_eq!(lines[2], "  c0 change 0");

    let resumed = plan(1, "s", &items(5), Some("c1"), None);
    assert_eq!(resumed.items, items(5)[2..]);
    let lost = plan(1, "s", &items(5), Some("gone"), None);
    assert_eq!(lost.len(), 5, "a cursor that is not there starts over");
    assert_eq!(lost.excluded_by_limit, 0);
    assert_eq!(resumed.resumed_from.as_deref(), Some("c1"));
    assert_eq!(lost.resumed_from, None);
    assert_eq!(lost.summary_lines()[0], "s: 5 change(s) to review");
}

#[test]
fn a_backfill_stands_aside_at_every_step() {
    let mut backfill = Backfill::new(plan(1, "s", &items(2), None, None));
    assert_eq!(
        backfill.next_step(true, &BudgetVerdict::WithinBudget),
        Step::Yield(Yielded::LiveWorkPending)
    );
    assert_eq!(
        backfill.next_step(false, &exhausted()),
        Step::Yield(Yielded::BudgetExhausted { reason: "spent".to_owned() })
    );
    for item in items(2) {
        assert_eq!(backfill.next_step(false, &BudgetVerdict::WithinBudget), Step::Review(item.clone()));
        backfill.recorded(&item);
    }
    assert_eq!(backfill.next_step(false, &BudgetVerdict::WithinBudget), Step::Done);
    assert_eq!(backfill.cursor_value(), Some("c1"));
    assert_eq!((backfill.completed(), backfill.remaining()), (2, 0));
    assert!(!ManualReview::new(1, "HEAD", at(0)).yields_to_live_work());
}

fn outcome(change: &str) -> RunOutcome {
    RunOutcome {
        run_id: 1,
        repo: "acme".to_owned(),
        change: change.to_owned(),
        status: "done".to_owned(),
        engine: "mock".to_owned(),
        verdict: None,
        findings: 1,
        actions: 0,
        detail: None,
    }
}

#[test]
fn a_sweep_says_what_it_did_and_how_to_go_on() {
    let mut sweep = Sweep::new(plan(1, "s", &items(4), None, None));
    let ids = vec!["c1".to_owned(), "c2".to_owned(), "c3".to_owned()];
    let within = BudgetVerdict::WithinBudget;

    let first = sweep.next(false, &within).expect("an item");
    assert_eq!(enumerated_at(&ids, &first), None);
    sweep.not_enumerated(&first);
    let second = sweep.next(false, &within).expect("an item");
    assert_eq!(enumerated_at(&ids, &second), Some(0));
    assert_eq!(sweep.skipped(&second, "merge commit"), "c1");
    let third = sweep.next(false, &within).expect("an item");
    assert_eq!(sweep.attempted(&third, Ok(outcome("c2"))), "c2");
    assert_eq!(sweep.next(true, &within), None);

    let done = sweep.finish();
    assert!(!done.finished_the_plan());
    assert_eq!((done.completed, done.remaining), (3, 1));
    assert_eq!(done.cursor.as_deref(), Some("c2"));
    let lines = done.summary_lines();
    assert_eq!(lines[0], "  reviewed c2 — no verdict (1 finding(s), 0 action(s), done)");
    assert_eq!(lines[1], "  skipped: c1: merge commit");
    assert!(lines[2].starts_with("  held: c0: planned but not among"), "{lines:?}");
    assert_eq!(
        lines[4],
        "  1 item(s) left; run the same command again to continue from the cursor"
    );
}

#[test]
fn a_cancelled_sweep_keeps_its_place() {
    let mut sweep = Sweep::new(plan(1, "s", &items(2), Some("c0"), None));
    sweep.cancel();
    let done = sweep.finish();

    assert_eq!(done.stopped.as_deref(), Some("cancelled; the cursor is at the last item reviewed"));
    assert_eq!(done.completed, 0);
}

#[test]
fn repositories_share_no_window() {
    let (one, other) = (event(1, TriggerSource::Hook, 0), event(2, TriggerSource::Poll, 10));
    let mut first = TriggerBus::new(1_500);
    first.offer(&one);
    first.offer(&other);
    let mut second = TriggerBus::new(1_500);
    second.offer(&other);
    second.offer(&one);
    assert_eq!(first.due_passes(at(2_000)).len(), 2);
    assert_eq!(second.due_passes(at(2_000)).len(), 2);
    assert_eq!(first.pending_sources(1), second.pending_sources(1));
}
