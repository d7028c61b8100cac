//! What may be spent, and what may be done unattended.

use revlocal_daemon::autonomy::{disposition, mode_change_detail, reviews_run, widens, Disposition};
use revlocal_daemon::budgets::{
    check, day_of, exhausted_detail, records_the_change, resumes_after_reset, BudgetSettings, BudgetVerdict,
    CostReading, Exhausted, LedgerEntry, RunSlots,
};
use revlocal_daemon::clock::Timestamp;
use revlocal_daemon::gating::{gate, held_by};
use revlocal_daemon::kill_switch::{
    cancels, is_signallable, may_dispatch, signal_target, switch_detail, PauseReport, CANCELLABLE,
};
use revlocal_daemon::model::{
    AutonomyMode, Destination, OnExhausted, PublishActionStatus, RiskAssessment, RiskClass, RunStatus,
};

fn budget(runs: u32, tokens: u64, on_exhausted: OnExhausted) -> BudgetSettings {
    BudgetSettings { daily_runs_per_repo: runs, daily_tokens_per_repo: tokens, on_exhausted }
}

#[test]
fn a_day_is_written_as_a_date() {
    assert_eq!(day_of(Timestamp::at(0, 0)), "1970-01-01");
    assert_eq!(day_of(Timestamp::at(1_788_000_000, 5)), "2026-08-29");
    assert_eq!(day_of(Timestamp::at(-1, 0)), "1969-12-31");
}

#[test]
fn a_spent_allowance_stops_the_next_run() {
    let entry = LedgerEntry { runs: 3, tokens_in: 60, tokens_out: 40 };
    let runs = check(Some(&entry), &budget(3, 0, OnExhausted::Queue), &CostReading::Within);
    assert!(!runs.allows_run());
    assert!(matches!(runs, BudgetVerdict::Exhausted { which: Exhausted::Runs, .. }));

    let tokens = check(Some(&entry), &budget(0, 100, OnExhausted::Skip), &CostReading::Within);
    assert!(matches!(tokens, BudgetVerdict::Exhausted { which: Exhausted::Tokens, .. }));
    assert!(tokens.reason().expect("a reason").contains("daily token budget"));

    let reached = CostReading::Reached { cost: "5.00".to_owned(), ceiling: "5.00".to_owned() };
    let cost = check(Some(&entry), &budget(0, 0, OnExhausted::Pause), &reached);
    assert!(matches!(cost, BudgetVerdict::Exhausted { which: Exhausted::Cost, .. }));
}

#[test]
fn zero_means_unlimited_and_an_empty_day_is_within() {
    let entry = LedgerEntry { runs: 9_999, tokens_in: 1, tokens_out: 1 };
    assert!(check(Some(&entry), &budget(0, 0, OnExhausted::Pause), &CostReading::Within).allows_run());
    assert!(check(None, &budget(1, 1, OnExhausted::Pause), &CostReading::Within).allows_run());
}

#[test]
fn a_day_that_cannot_be_measured_allows_no_run() {
    let unmeasured = CostReading::Unmeasured { known: "1.20".to_owned(), ceiling: "5.00".to_owned() };
    let verdict = check(None, &budget(0, 0, OnExhausted::Pause), &unmeasured);

    assert!(matches!(verdict, BudgetVerdict::CostUnmeasurable { .. }));
    assert!(!verdict.allows_run());
    assert!(records_the_change(&verdict));
    let detail = exhausted_detail("acme", "2026-09-01", &verdict);
    assert!(detail.resumes_after_reset);
    assert!(detail.reason.expect("a reason").contains("1.20"));
}

#[test]
fn a_skipped_change_does_not_come_back() {
    assert!(resumes_after_reset(OnExhausted::Queue));
    assert!(resumes_after_reset(OnExhausted::Pause));
    assert!(!resumes_after_reset(OnExhausted::Skip));
    assert_eq!(RunSlots::new(0).limit(), 1);
    assert_eq!(RunSlots::new(4).limit(), 4);
    assert_eq!(RunSlots::default().limit(), 2);
}

#[test]
fn each_mode_does_what_it_says() {
    assert_eq!(disposition(AutonomyMode::Off, RiskClass::Low), Disposition::NoReview);
    assert_eq!(disposition(AutonomyMode::DryRun, RiskClass::Low), Disposition::RecordOnly);
    assert_eq!(disposition(AutonomyMode::AutoLowAskHigh, RiskClass::Low), Disposition::Send);
    assert_eq!(disposition(AutonomyMode::AutoLowAskHigh, RiskClass::High), Disposition::AwaitApproval);
    assert_eq!(disposition(AutonomyMode::Auto, RiskClass::High), Disposition::Send);
    assert!(!Disposition::RecordOnly.sends());
    assert!(reviews_run(AutonomyMode::DryRun));
    assert!(!reviews_run(AutonomyMode::Off));
}

#[test]
fn the_narrower_mode_is_in_force() {
    assert_eq!(AutonomyMode::effective(AutonomyMode::DryRun, AutonomyMode::Auto), AutonomyMode::DryRun);
    assert_eq!(AutonomyMode::effective(AutonomyMode::Auto, AutonomyMode::Off), AutonomyMode::Off);
    assert!(widens(AutonomyMode::Off, AutonomyMode::DryRun));
    assert!(!widens(AutonomyMode::Auto, AutonomyMode::DryRun));
    let change = mode_change_detail("global", AutonomyMode::Auto, AutonomyMode::DryRun);
    assert_eq!((change.from.as_str(), change.to.as_str(), change.restricts), ("auto", "dry_run", true));
}

#[test]
fn an_action_is_held_for_a_stated_reason() {
    let assessment = RiskAssessment { class: RiskClass::High, explanation: "creates an issue".to_owned() };
    let gated = gate(assessment, AutonomyMode::AutoLowAskHigh, true, Destination::External);
    assert!(gated.needs_approval());
    assert_eq!(gated.initial_status(), Some(PublishActionStatus::AwaitingApproval));
    assert_eq!(gated.explain(), "creates an issue");

    let held = held_by(RiskClass::High, AutonomyMode::AutoLowAskHigh);
    assert!(held.remedy.expect("a remedy").contains("`auto`"));
    assert_eq!(held_by(RiskClass::Low, AutonomyMode::AutoLowAskHigh).remedy, None);
    assert_eq!(
        held_by(RiskClass::High, AutonomyMode::Auto).reason,
        "queued while a narrower mode was in force"
    );
}

#[test]
fn the_first_write_to_any_system_waits_for_a_person() {
    let low = || RiskAssessment { class: RiskClass::Low, explanation: "adds a comment".to_owned() };
    let modes = [AutonomyMode::Off, AutonomyMode::DryRun, AutonomyMode::AutoLowAskHigh, AutonomyMode::Auto];
    for mode in modes {
        let first = gate(low(), mode, false, Destination::External);
        assert_ne!(first.disposition, Disposition::Send);
        let second = gate(low(), mode, true, Destination::External);
        assert_eq!(second.disposition, disposition(mode, RiskClass::Low));
        let local = gate(low(), mode, false, Destination::Local);
        assert_eq!(local.disposition, disposition(mode, RiskClass::Low));
    }
    let first = gate(low(), AutonomyMode::Auto, false, Destination::External);
    assert_eq!(first.disposition, Disposition::AwaitApproval);
    assert_eq!(first.initial_status(), Some(PublishActionStatus::AwaitingApproval));
    let recorded = gate(low(), AutonomyMode::DryRun, false, Destination::External);
    assert_eq!(recorded.initial_status(), Some(PublishActionStatus::SkippedDryRun));
}

#[test]
fn a_pause_cancels_what_is_unfinished_and_holds_what_is_queued() {
    let report = PauseReport::of(
        &vec![(1, RunStatus::Queued), (2, RunStatus::Done), (3, RunStatus::AwaitingApproval)],
        5,
    );

    assert_eq!(report.runs_cancelled, [1, 3]);
    assert_eq!(
        report.summary(),
        "cancelled 2 run(s); 5 publish action(s) held and will be sent on resume"
    );
    let detail = switch_detail(true, &report, Timestamp::at(1_788_000_000, 0));
    assert_eq!(detail.at, "2026-08-29T10:40:00+00:00");
    assert_eq!(detail.runs_cancelled, [1, 3]);
    assert!(CANCELLABLE.iter().all(|status| cancels(*status)));
    assert!(!cancels(RunStatus::Cancelled));
    assert!(!may_dispatch(true));
}

#[test]
fn no_process_group_of_one_s_own_is_signalled() {
    assert!(!is_signallable(0));
    assert!(!is_signallable(1));
    assert_eq!(signal_target(4_242), Some(4_242));
    assert_eq!(signal_target(u32::MAX), None);
    assert_eq!(signal_target(1), None);
}
