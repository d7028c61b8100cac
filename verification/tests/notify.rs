//! What somebody is told of, and how often.

use revlocal_daemon::clock::Timestamp;
use revlocal_daemon::model::Severity;
use revlocal_daemon::notify::{Decision, Notifier, Reason, TrayStatus, PER_WINDOW, WINDOW_SECS};


fn at(minute: u32) -> Timestamp {
    let noon = chrono::DateTime::parse_from_rfc3339("2026-08-30T12:00:00Z").expect("a moment");
    Timestamp::at(noon.timestamp() + i64::from(minute) * 60, 0)
}

fn later(moment: Timestamp, secs: i64) -> Timestamp {
    Timestamp { nanos: moment.nanos + i128::from(secs) * 1_000_000_000 }
}

fn finding(fingerprint: &str, severity: Severity) -> Reason {
    Reason::Finding {
        severity,
        fingerprint: fingerprint.to_owned(),
        title: "SQL injection in find_user".to_owned(),
        repo: "acme".to_owned(),
    }
}

fn approval(id: i64) -> Reason {
    Reason::Approval {
        action_id: id,
        target: "github".to_owned(),
        capability: "post_review".to_owned(),
    }
}

#[test]
fn notify_a_backfill_cannot_spam_the_user() {
    let mut notifier = Notifier::new();

    let shown = (0..20)
        .filter(|i| {
            matches!(
                notifier.consider(&finding(&format!("fp-{i}"), Severity::Critical), at(1)),
                Decision::Show { .. } | Decision::Summarise { .. }
            )
        })
        .count();

    assert_eq!(shown, PER_WINDOW);
}

#[test]
fn notify_what_was_held_back_is_counted_and_said() {
    let mut notifier = Notifier::new();

    for i in 0..10 {
        notifier.consider(&finding(&format!("fp-{i}"), Severity::Critical), at(1));
    }
    assert_eq!(notifier.pending_suppressed(), 6);

    match notifier.consider(
        &finding("fp-late", Severity::Critical),
        later(at(1), WINDOW_SECS),
    ) {
        Decision::Summarise {
            suppressed, body, ..
        } => {
            assert_eq!(suppressed, 6);
            assert!(body.contains("6 more"), "{body}");
        }
        other => panic!("expected a summary, got {other:?}"),
    }

    assert_eq!(notifier.pending_suppressed(), 0);
}

#[test]
fn notify_the_window_rolls_rather_than_locking_out_forever() {
    let mut notifier = Notifier::new();
    for i in 0..PER_WINDOW {
        notifier.consider(&finding(&format!("fp-{i}"), Severity::Critical), at(0));
    }

    let late = later(at(0), WINDOW_SECS + 1);
    assert!(matches!(
        notifier.consider(&finding("fp-new", Severity::Critical), late),
        Decision::Show { .. }
    ));
}

#[test]
fn notify_the_same_finding_twice_is_told_once() {
    let mut notifier = Notifier::new();

    assert!(matches!(
        notifier.consider(&finding("fp-1", Severity::Critical), at(0)),
        Decision::Show { .. }
    ));
    assert!(matches!(
        notifier.consider(&finding("fp-1", Severity::Critical), at(5)),
        Decision::Suppressed { .. }
    ));
}

#[test]
fn notify_a_medium_finding_is_not_worth_interrupting_for() {
    let mut notifier = Notifier::new();

    assert!(matches!(
        notifier.consider(&finding("fp-1", Severity::Medium), at(0)),
        Decision::Suppressed { .. }
    ));
    assert_eq!(notifier.pending_suppressed(), 0);
    assert!(matches!(
        notifier.consider(&finding("fp-2", Severity::High), at(0)),
        Decision::Show { .. }
    ));
}

#[test]
fn notify_every_approval_is_worth_showing() {
    let mut notifier = Notifier::new();

    match notifier.consider(&approval(7), at(0)) {
        Decision::Show { body, .. } => {
            assert!(body.contains("github"), "{body}");
            assert!(body.contains("post_review"), "{body}");
        }
        other => panic!("expected a notification, got {other:?}"),
    }
}

#[test]
fn notify_two_approvals_for_one_target_are_two_notifications() {
    let mut notifier = Notifier::new();

    assert!(matches!(
        notifier.consider(&approval(1), at(0)),
        Decision::Show { .. }
    ));
    assert!(matches!(
        notifier.consider(&approval(2), at(0)),
        Decision::Show { .. }
    ));
}

#[test]
fn notify_a_suppressed_duplicate_does_not_consume_the_limit() {
    let mut notifier = Notifier::new();
    notifier.consider(&finding("fp-1", Severity::Critical), at(0));

    for _ in 0..10 {
        notifier.consider(&finding("fp-1", Severity::Critical), at(0));
    }

    assert_eq!(notifier.pending_suppressed(), 0);
    assert!(matches!(
        notifier.consider(&finding("fp-2", Severity::Critical), at(0)),
        Decision::Show { .. }
    ));
}

#[test]
fn tray_says_paused_in_words() {
    assert_eq!(TrayStatus::of(true), TrayStatus::Paused);
    assert!(TrayStatus::Paused.tooltip().contains("PAUSED"));
    assert!(TrayStatus::Running.tooltip().contains("reviewing"));
    assert_ne!(TrayStatus::Paused.tooltip(), TrayStatus::Running.tooltip());
}
