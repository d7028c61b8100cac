//! What waits for a person, and for how long.

use revlocal_daemon::approvals::{
    decision_detail, expiry_detail, expires_at, payload_matches_approval, time_left, verify_before_send,
    ApprovalError, Decision, InboxItem, AUDIT_KIND_EXPIRED, REASON_EXPIRED,
};
use revlocal_daemon::approvals_view::{for_run, gather, ApprovalsError, ApprovalsView, QueuedAction};
use revlocal_daemon::clock::Timestamp;
use revlocal_daemon::model::{Capability, PublishAction, PublishActionStatus, RiskAssessment, RiskClass};

fn before(moment: Timestamp, minutes: i64) -> Timestamp {
    Timestamp { nanos: moment.nanos - i128::from(minutes) * 60_000_000_000 }
}


fn at(hours: i64) -> Timestamp {
    let midnight = chrono::DateTime::parse_from_rfc3339("2026-09-01T00:00:00Z").expect("a moment");
    Timestamp::at(midnight.timestamp() + hours * 3_600, 0)
}

#[test]
fn approvals_a_deadline_two_hours_away_says_so() {
    assert_eq!(time_left(at(0), 72, at(70)), Some("2h left".to_owned()));
}

#[test]
fn approvals_a_deadline_inside_the_hour_does_not_round_to_zero() {
    assert_eq!(
        time_left(at(0), 72, before(at(72), 30)),
        Some("under an hour left".to_owned())
    );
}

#[test]
fn approvals_a_deadline_already_passed_says_what_happens_next() {
    let words = time_left(at(0), 72, at(80)).expect("a TTL is set");
    assert!(words.contains("discards it"), "{words}");
}

#[test]
fn approvals_a_ttl_of_zero_shows_no_deadline_at_all() {
    assert_eq!(time_left(at(0), 0, at(9_000)), None);
}

#[test]
fn approvals_a_long_wait_is_given_in_days() {
    assert_eq!(time_left(at(0), 168, at(0)), Some("7d left".to_owned()));
}


fn queued(id: i64, run_id: i64, target: &str, has_finding: bool) -> QueuedAction {
    QueuedAction {
        id,
        run_id,
        target: target.to_owned(),
        capability: "post_review".to_owned(),
        risk: "high".to_owned(),
        payload_json: r#"{"body":"hello"}"#.to_owned(),
        has_finding,
    }
}

#[test]
fn approvals_approve_all_is_scoped_to_one_run() {
    let view = ApprovalsView {
        waiting: vec![
            queued(1, 10, "github", true),
            queued(2, 10, "andare", true),
            queued(3, 11, "github", false),
        ],
    };

    assert_eq!(view.runs(), vec![10, 11]);
    assert_eq!(view.count_for_run(10), 2);
    assert_eq!(view.count_for_run(11), 1);
}

#[test]
fn approvals_a_run_with_nothing_waiting_counts_zero() {
    let view = ApprovalsView { waiting: vec![] };

    assert!(view.runs().is_empty());
    assert_eq!(view.count_for_run(10), 0);
}

#[test]
fn approvals_suppression_is_only_offered_where_there_is_a_finding() {
    let view = ApprovalsView {
        waiting: vec![queued(1, 10, "github", true), queued(2, 10, "trama", false)],
    };

    assert!(view.waiting[0].has_finding);
    assert!(!view.waiting[1].has_finding);
}

fn action(id: i64, run_id: i64, status: PublishActionStatus, finding_id: Option<i64>) -> PublishAction {
    PublishAction {
        id,
        run_id,
        finding_id,
        target: "github".to_owned(),
        capability: Capability::CreateIssue,
        risk: RiskClass::High,
        payload_json: "{}".to_owned(),
        status,
        created_at: at(0),
    }
}

#[test]
fn approvals_the_inbox_lists_what_awaits_a_person_and_nothing_else() {
    let actions = vec![
        action(1, 10, PublishActionStatus::AwaitingApproval, Some(3)),
        action(2, 10, PublishActionStatus::Sent, None),
        action(3, 11, PublishActionStatus::AwaitingApproval, None),
    ];
    let view = gather(&actions);

    assert_eq!(view.waiting.len(), 2);
    assert_eq!(view.waiting[0].id, 1);
    assert!(view.waiting[0].has_finding);
    assert_eq!(view.waiting[0].capability, "create_issue");
    assert_eq!(view.waiting[0].risk, "high");
    assert!(!view.waiting[1].has_finding);
    assert_eq!(for_run(&actions, 10), [1]);
    assert!(for_run(&actions, 12).is_empty());
}

#[test]
fn approvals_only_what_was_approved_is_sent() {
    assert_eq!(payload_matches_approval("abc", Some("abc")), Some(true));
    assert_eq!(payload_matches_approval("abc", Some("abd")), Some(false));
    assert_eq!(payload_matches_approval("abc", None), None);
    assert!(verify_before_send(7, "abc", Some("abc")).is_ok());
    assert!(verify_before_send(7, "abc", None).is_ok());
    let refused = verify_before_send(7, "abd", Some("abc")).expect_err("refused");
    assert_eq!(refused, ApprovalError::PayloadChangedAfterApproval { action_id: 7 });
    assert!(refused.describe().contains('7'), "{}", refused.describe());
}

#[test]
fn approvals_an_edit_is_what_is_sent() {
    let edited = Decision::EditThenApprove { payload_json: "{\"a\":1}".to_owned() };

    assert_eq!(edited.effective_payload("{}"), "{\"a\":1}");
    assert_eq!(Decision::Approve.effective_payload("{}"), "{}");
    assert!(edited.approves());
    assert!(!Decision::Reject.approves());
}

#[test]
fn approvals_an_expiry_is_told_apart_from_a_decision() {
    let waiting = action(5, 9, PublishActionStatus::AwaitingApproval, None);
    let expired = expiry_detail(&waiting, 72);

    assert_eq!(expired.action_id, 5);
    assert_eq!(expired.reason, REASON_EXPIRED);
    assert_eq!(expired.actor, "none");
    assert_eq!(expired.waited_hours, 72);
    let decided = decision_detail(&waiting, &Decision::Approve, "sam");
    assert_eq!(decided.actor, "sam");
    assert_ne!(Decision::Approve.audit_kind(), AUDIT_KIND_EXPIRED);
}

#[test]
fn approvals_an_item_names_its_target_and_its_reason() {
    let item = InboxItem {
        action: action(5, 9, PublishActionStatus::AwaitingApproval, None),
        assessment: RiskAssessment { class: RiskClass::High, explanation: "first use".to_owned() },
        expires_at: expires_at(at(0), 72),
    };

    assert_eq!(item.what_it_will_do(), "create_issue on github");
    assert_eq!(item.why(), "first use");
    assert!(!item.is_expired(at(71)));
    assert!(item.is_expired(at(72)));
}

#[test]
fn approvals_an_inbox_that_cannot_be_read_says_why() {
    assert_eq!(
        ApprovalsError::Store { source: "locked".to_owned() }.describe(),
        "could not read the local database: locked\n  try: revlocal db migrate"
    );
}
