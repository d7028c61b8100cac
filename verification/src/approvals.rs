//! The approvals inbox.
//!
//! # Approve sends exactly what was reviewed
//!
//! Approval records a digest of the payload that the human was shown, and the queue computes
//! it again before sending. A payload that has moved since somebody looked at it is refused.
//! Editing before approving is no exception: the digest recorded is that of the edited
//! payload.
//!
//! # Expiry is a decision nobody made, and says so
//!
//! An approval that times out stays distinguishable from a person saying no: one means that
//! somebody looked and declined, the other that nobody looked.

use vstd::prelude::*;

use crate::clock::{whole, whole_units, Timestamp, NANOS_PER_HOUR};
use crate::model::{PublishAction, RiskAssessment};
use crate::text::{cat2, cat3, decimal_int, opt_str, opt_text, same, signed};

verus! {

/// How long an approval waits by default.
pub const DEFAULT_APPROVAL_TTL_HOURS: i64 = 72;

/// The reason recorded when an approval times out.
pub const REASON_EXPIRED: &'static str = "expired";

/// The audit event name for an expiry.
pub const AUDIT_KIND_EXPIRED: &'static str = "approval_expired";

/// Whether the payload, by its digest, still matches what was approved. Nothing for an action
/// nobody approved, which is not a mismatch.
pub fn payload_matches_approval(digest: &str, approved_digest: Option<&str>) -> (r: Option<bool>)
    ensures
        r == match opt_str(approved_digest) {
            Some(approved) => Some(digest@ == approved),
            None => None,
        },
{
    match approved_digest {
        Some(approved) => Some(same(digest, approved)),
        None => None,
    }
}

/// One queued action, as the inbox shows it, with its payload verbatim.
#[derive(Clone, Debug, PartialEq, Eq)]
pub struct InboxItem {
    /// The action.
    pub action: PublishAction,
    /// Why it is here.
    pub assessment: RiskAssessment,
    /// When it stops waiting.
    pub expires_at: Timestamp,
}

impl InboxItem {
    /// Whether this item has outlived its time.
    pub fn is_expired(&self, now: Timestamp) -> (r: bool)
        ensures
            r == (now.nanos >= self.expires_at.nanos),
    {
        now.nanos >= self.expires_at.nanos
    }

    /// The one-line reason shown beside the item.
    pub fn why(&self) -> (r: String)
        ensures
            r@ == self.assessment.explanation@,
    {
        self.assessment.explanation.clone()
    }

    /// A sentence naming the target explicitly: "approve" on its own is a button somebody
    /// clicks without reading.
    pub fn what_it_will_do(&self) -> (r: String)
        ensures
            r@ == self.action.capability.word() + " on "@ + self.action.target@,
    {
        cat3(self.action.capability.as_str(), " on ", self.action.target.as_str())
    }
}

/// When an action queued at `queued_at` stops waiting.
pub open spec fn deadline(queued_at: Timestamp, ttl_hours: i64) -> Timestamp {
    Timestamp { nanos: (queued_at.nanos + ttl_hours * NANOS_PER_HOUR) as i128 }
}

/// When an action queued at `queued_at` stops waiting.
pub fn expires_at(queued_at: Timestamp, ttl_hours: i64) -> (r: Timestamp)
    requires
        queued_at.in_calendar(),
        deadline(queued_at, ttl_hours).in_calendar(),
    ensures
        r == deadline(queued_at, ttl_hours),
        r.nanos == queued_at.nanos + ttl_hours * NANOS_PER_HOUR,
{
    queued_at.plus_hours(ttl_hours)
}

/// How long an item has left, in words: nothing when it waits forever.
pub open spec fn time_left_words(queued_at: Timestamp, ttl_hours: i64, now: Timestamp) -> Option<Seq<char>> {
    if ttl_hours <= 0 {
        None
    } else {
        let remaining = deadline(queued_at, ttl_hours).nanos - now.nanos;
        let hours = whole_units(remaining, NANOS_PER_HOUR as int);
        Some(
            if remaining <= 0 {
                "past its deadline — the next check discards it"@
            } else if hours < 1 {
                "under an hour left"@
            } else if hours < 24 {
                decimal_int(hours) + "h left"@
            } else {
                decimal_int(hours / 24) + "d left"@
            },
        )
    }
}

/// How long an item has left, in words, or nothing when it waits forever.
///
/// Zero means to wait forever, exactly as it does when approvals are expired: a deadline shown
/// against a policy that never expires anything would be a lie.
pub fn time_left(queued_at: Timestamp, ttl_hours: i64, now: Timestamp) -> (r: Option<String>)
    requires
        queued_at.in_calendar(),
        now.in_calendar(),
        ttl_hours > 0 ==> deadline(queued_at, ttl_hours).in_calendar(),
    ensures
        opt_text(r) == time_left_words(queued_at, ttl_hours, now),
{
    if ttl_hours <= 0 {
        return None;
    }
    let remaining: i128 = expires_at(queued_at, ttl_hours).since(now);
    let hours: i128 = whole(remaining, NANOS_PER_HOUR);
    Some(
        if remaining <= 0 {
            "past its deadline — the next check discards it".to_owned()
        } else if hours < 1 {
            "under an hour left".to_owned()
        } else if hours < 24 {
            cat2(signed(hours as i64).as_str(), "h left")
        } else {
            cat2(signed((hours / 24) as i64).as_str(), "d left")
        },
    )
}

/// What a person decided about a queued action.
#[derive(Clone, Debug, PartialEq, Eq)]
pub enum Decision {
    /// Send it as reviewed.
    Approve,
    /// Send this and everything else queued for the same run.
    ApproveAllForRun,
    /// Do not send it.
    Reject,
    /// Do not send it, and never raise this finding again.
    RejectAndSuppress,
    /// Send this instead of what was queued. It is what gets sent and what gets digested.
    EditThenApprove {
        /// The replacement payload.
        payload_json: String,
    },
}

impl Decision {
    /// The payload to record and send, given what was queued.
    pub open spec fn payload(self, queued: Seq<char>) -> Seq<char> {
        match self {
            Self::EditThenApprove { payload_json } => payload_json@,
            _ => queued,
        }
    }

    /// The audit event name for this decision.
    pub open spec fn event(self) -> Seq<char> {
        match self {
            Self::Approve => "approval_granted"@,
            Self::ApproveAllForRun => "approval_granted"@,
            Self::EditThenApprove { .. } => "approval_granted_with_edit"@,
            Self::Reject => "approval_rejected"@,
            Self::RejectAndSuppress => "approval_rejected_and_suppressed"@,
        }
    }

    /// Whether this decision results in a send.
    pub fn approves(&self) -> (r: bool)
        ensures
            r == (self is Approve || self is ApproveAllForRun || self is EditThenApprove),
    {
        matches!(self, Self::Approve | Self::ApproveAllForRun | Self::EditThenApprove { .. })
    }

    /// Whether this decision should create a suppression.
    pub fn suppresses(&self) -> (r: bool)
        ensures
            r == (self is RejectAndSuppress),
    {
        matches!(self, Self::RejectAndSuppress)
    }

    /// The payload to record and send, given what was queued.
    pub fn effective_payload<'a>(&'a self, queued: &'a str) -> (r: &'a str)
        ensures
            r@ == self.payload(queued@),
    {
        match self {
            Self::EditThenApprove { payload_json } => payload_json.as_str(),
            _ => queued,
        }
    }

    /// The audit event name for this decision.
    pub fn audit_kind(&self) -> (r: &'static str)
        ensures
            r@ == self.event(),
    {
        match self {
            Self::Approve | Self::ApproveAllForRun => "approval_granted",
            Self::EditThenApprove { .. } => "approval_granted_with_edit",
            Self::Reject => "approval_rejected",
            Self::RejectAndSuppress => "approval_rejected_and_suppressed",
        }
    }
}

/// Why the queue refused to send an approved action.
#[derive(Clone, Copy, Debug, PartialEq, Eq, Structural)]
pub enum ApprovalError {
    /// The payload changed after a human approved it.
    PayloadChangedAfterApproval {
        /// Which action.
        action_id: i64,
    },
}

impl ApprovalError {
    /// What to tell the user.
    pub fn describe(&self) -> (r: String)
        ensures
            r@ == match *self {
                ApprovalError::PayloadChangedAfterApproval { action_id } => "the payload of action "@
                    + decimal_int(action_id as int)
                    + " changed after it was approved; it will not be sent\n  try: review it again in the approvals inbox"@,
            },
    {
        match self {
            ApprovalError::PayloadChangedAfterApproval { action_id } => cat3(
                "the payload of action ",
                signed(*action_id).as_str(),
                " changed after it was approved; it will not be sent\n  try: review it again in the approvals inbox",
            ),
        }
    }
}

/// Whether an approved action may be sent with a payload of this digest. One that nobody
/// approved may: this is about honouring an approval, not about requiring one.
pub open spec fn may_send(digest: Seq<char>, approved: Option<Seq<char>>) -> bool {
    match approved {
        Some(wanted) => digest == wanted,
        None => true,
    }
}

/// Check an approved action before it is sent, by the digest of its payload.
pub fn verify_before_send(action_id: i64, digest: &str, approved_digest: Option<&str>) -> (r: Result<
    (),
    ApprovalError,
>)
    ensures
        r is Ok == may_send(digest@, opt_str(approved_digest)),
        r matches Err(e) ==> e == (ApprovalError::PayloadChangedAfterApproval { action_id }),
{
    match payload_matches_approval(digest, approved_digest) {
        Some(matched) => {
            if matched {
                Ok(())
            } else {
                Err(ApprovalError::PayloadChangedAfterApproval { action_id })
            }
        },
        None => Ok(()),
    }
}

/// The audit detail recorded for a decision.
#[derive(Clone, Debug, PartialEq, Eq)]
pub struct DecisionDetail {
    /// Which action.
    pub action_id: i64,
    /// Which run.
    pub run_id: i64,
    /// Where it goes.
    pub target: String,
    /// What it does there.
    pub capability: String,
    /// How risky it is.
    pub risk: String,
    /// Who decided.
    pub actor: String,
    /// Whether the payload was edited.
    pub edited: bool,
    /// Whether the finding is suppressed from now on.
    pub suppressed: bool,
}

/// The audit detail recorded for a decision.
pub fn decision_detail(action: &PublishAction, decision: &Decision, actor: &str) -> (r: DecisionDetail)
    ensures
        r.action_id == action.id,
        r.run_id == action.run_id,
        r.target@ == action.target@,
        r.capability@ == action.capability.word(),
        r.risk@ == action.risk.word(),
        r.actor@ == actor@,
        r.edited == (decision is EditThenApprove),
        r.suppressed == (decision is RejectAndSuppress),
{
    DecisionDetail {
        action_id: action.id,
        run_id: action.run_id,
        target: action.target.clone(),
        capability: action.capability.as_str().to_owned(),
        risk: action.risk.as_str().to_owned(),
        actor: actor.to_owned(),
        edited: matches!(decision, Decision::EditThenApprove { .. }),
        suppressed: decision.suppresses(),
    }
}

/// The audit detail recorded when an approval expires. It is not a decision's: nobody made
/// one, and the log must be able to answer whether anyone looked.
#[derive(Clone, Debug, PartialEq, Eq)]
pub struct ExpiryDetail {
    /// Which action.
    pub action_id: i64,
    /// Which run.
    pub run_id: i64,
    /// Where it would have gone.
    pub target: String,
    /// What it would have done there.
    pub capability: String,
    /// That it expired.
    pub reason: String,
    /// How long it waited.
    pub waited_hours: i64,
    /// Who decided: nobody.
    pub actor: String,
}

/// The audit detail recorded when an approval expires.
pub fn expiry_detail(action: &PublishAction, waited_hours: i64) -> (r: ExpiryDetail)
    ensures
        r.action_id == action.id,
        r.run_id == action.run_id,
        r.target@ == action.target@,
        r.capability@ == action.capability.word(),
        r.reason@ == REASON_EXPIRED@,
        r.waited_hours == waited_hours,
        r.actor@ == "none"@,
{
    ExpiryDetail {
        action_id: action.id,
        run_id: action.run_id,
        target: action.target.clone(),
        capability: action.capability.as_str().to_owned(),
        reason: REASON_EXPIRED.to_owned(),
        waited_hours,
        actor: "none".to_owned(),
    }
}

// --- what holds of every approval ---

/// What is sent is what was approved: with the digest of the payload that the decision made
/// effective on record, that payload may be sent, and none with another digest.
pub proof fn only_what_was_approved_is_sent(
    decision: Decision,
    queued: Seq<char>,
    digest: spec_fn(Seq<char>) -> Seq<char>,
    payload: Seq<char>,
)
    ensures
        may_send(digest(decision.payload(queued)), Some(digest(decision.payload(queued)))),
        may_send(digest(payload), Some(digest(decision.payload(queued)))) == (digest(payload) == digest(
            decision.payload(queued),
        )),
{
}

/// The words and the sweep agree: an item is said to be past its deadline exactly when it has
/// outlived its time.
pub proof fn past_its_deadline_means_expired(queued_at: Timestamp, ttl_hours: i64, now: Timestamp)
    requires
        ttl_hours > 0,
    ensures
        (time_left_words(queued_at, ttl_hours, now)
            == Some("past its deadline — the next check discards it"@)) == (now.nanos >= deadline(
            queued_at,
            ttl_hours,
        ).nanos),
{
    let remaining = deadline(queued_at, ttl_hours).nanos - now.nanos;
    let hours = whole_units(remaining, NANOS_PER_HOUR as int);
    let past = "past its deadline — the next check discards it"@;
    if remaining > 0 {
        reveal_strlit("past its deadline — the next check discards it");
        reveal_strlit("under an hour left");
        reveal_strlit("h left");
        reveal_strlit("d left");
        assert(past[0] == 'p');
        if hours < 1 {
            assert("under an hour left"@[0] == 'u');
        } else if hours < 24 {
            decimal_starts_with_a_digit(hours as nat);
            assert((decimal_int(hours) + "h left"@)[0] == decimal_int(hours)[0]);
        } else {
            decimal_starts_with_a_digit((hours / 24) as nat);
            assert((decimal_int(hours / 24) + "d left"@)[0] == decimal_int(hours / 24)[0]);
        }
    }
}

proof fn decimal_starts_with_a_digit(n: nat)
    ensures
        crate::text::decimal(n).len() > 0,
        crate::text::decimal(n)[0] != 'p',
    decreases n,
{
    if n >= 10 {
        decimal_starts_with_a_digit(n / 10);
    }
}

/// A decision is told apart from an expiry by its event.
pub proof fn an_expiry_is_no_decision(decision: Decision)
    ensures
        decision.event() != AUDIT_KIND_EXPIRED@,
{
    reveal_strlit("approval_granted");
    reveal_strlit("approval_granted_with_edit");
    reveal_strlit("approval_rejected");
    reveal_strlit("approval_rejected_and_suppressed");
    reveal_strlit("approval_expired");
    assert("approval_expired"@[9] == 'e');
    assert("approval_granted"@[9] == 'g');
    assert("approval_granted_with_edit"@[9] == 'g');
    assert("approval_rejected"@[9] == 'r');
    assert("approval_rejected_and_suppressed"@[9] == 'r');
}

/// An action waits as many hours as it is given, from when it was queued.
pub proof fn a_deadline_is_so_many_hours_later(queued_at: Timestamp, ttl_hours: i64)
    requires
        queued_at.in_calendar(),
    ensures
        deadline(queued_at, ttl_hours).nanos - queued_at.nanos == ttl_hours * 3_600_000_000_000,
{
}

/// What is said of the time that is left: nothing where an action waits forever, that it is over
/// from the deadline on, and before that how many whole hours or days there are.
pub proof fn the_time_left_is_told(queued_at: Timestamp, ttl_hours: i64, now: Timestamp)
    ensures
        ({
            let told = time_left_words(queued_at, ttl_hours, now);
            let left = deadline(queued_at, ttl_hours).nanos - now.nanos;
            let hour = 3_600_000_000_000int;
            &&& told is None == (ttl_hours <= 0)
            &&& told is Some && left <= 0 ==> told->0 == "past its deadline — the next check discards it"@
            &&& told is Some && 0 < left < hour ==> told->0 == "under an hour left"@
            &&& forall|h: int|
                told is Some && 1 <= h < 24 && #[trigger] (h * hour) <= left && left < (h + 1) * hour ==> told->0
                    == decimal_int(h) + "h left"@
            &&& forall|d: int|
                told is Some && 1 <= d && #[trigger] (d * 24 * hour) <= left && left < (d + 1) * 24 * hour
                    ==> told->0 == decimal_int(d) + "d left"@
        }),
{
    let told = time_left_words(queued_at, ttl_hours, now);
    let left = deadline(queued_at, ttl_hours).nanos - now.nanos;
    let hour = 3_600_000_000_000int;
    assert(hour == NANOS_PER_HOUR as int);
    assert forall|h: int|
        told is Some && 1 <= h < 24 && #[trigger] (h * hour) <= left && left < (h + 1) * hour implies told->0
        == decimal_int(h) + "h left"@ by {
        assert(left / hour == h) by (nonlinear_arith)
            requires
                h * hour <= left,
                left < (h + 1) * hour,
                hour == 3_600_000_000_000,
        ;
    }
    assert forall|d: int|
        told is Some && 1 <= d && #[trigger] (d * 24 * hour) <= left && left < (d + 1) * 24 * hour implies told->0
        == decimal_int(d) + "d left"@ by {
        let h = left / hour;
        assert(d * 24 <= h && h < (d + 1) * 24) by (nonlinear_arith)
            requires
                h == left / hour,
                d * 24 * hour <= left,
                left < (d + 1) * 24 * hour,
                hour == 3_600_000_000_000,
        ;
        assert(h / 24 == d);
    }
}

/// What is sent after a decision is what was queued, unless it was edited: that is what is sent
/// then. A decision is recorded as granting or as rejecting.
pub proof fn a_decision_sends_what_was_decided(decision: Decision, queued: Seq<char>)
    ensures
        !(decision is EditThenApprove) ==> decision.payload(queued) == queued,
        decision matches Decision::EditThenApprove { payload_json } ==> decision.payload(queued) == payload_json@,
        decision is Approve || decision is ApproveAllForRun || decision is EditThenApprove
            ==> "approval_granted"@.is_prefix_of(decision.event()),
        decision is Reject || decision is RejectAndSuppress ==> "approval_rejected"@.is_prefix_of(
            decision.event(),
        ),
{
    reveal_strlit("approval_granted");
    reveal_strlit("approval_granted_with_edit");
    reveal_strlit("approval_rejected");
    reveal_strlit("approval_rejected_and_suppressed");
    assert("approval_granted_with_edit"@.subrange(0, 16) =~= "approval_granted"@);
    assert("approval_granted"@.subrange(0, 16) =~= "approval_granted"@);
    assert("approval_rejected_and_suppressed"@.subrange(0, 17) =~= "approval_rejected"@);
    assert("approval_rejected"@.subrange(0, 17) =~= "approval_rejected"@);
}

/// What was approved is sent as it was approved, and what nobody had to approve is sent as it is:
/// a payload whose digest is another than the approved one is not.
pub proof fn another_payload_is_not_sent(digest: Seq<char>, approved: Seq<char>)
    ensures
        may_send(digest, Some(approved)) == (digest == approved),
        may_send(digest, None),
{
}

/// What is put on record of a decision tells what was decided.
pub proof fn what_was_decided_is_on_record(decision: Decision)
    ensures
        decision.event() == "approval_granted"@ <==> decision is Approve || decision is ApproveAllForRun,
        decision.event() == "approval_granted_with_edit"@ <==> decision is EditThenApprove,
        decision.event() == "approval_rejected"@ <==> decision is Reject,
        decision.event() == "approval_rejected_and_suppressed"@ <==> decision is RejectAndSuppress,
{
    reveal_strlit("approval_granted");
    reveal_strlit("approval_granted_with_edit");
    reveal_strlit("approval_rejected");
    reveal_strlit("approval_rejected_and_suppressed");
    assert("approval_granted"@.len() == 16 && "approval_granted_with_edit"@.len() == 26 && "approval_rejected"@.len()
        == 17 && "approval_rejected_and_suppressed"@.len() == 32);
}

} // verus!
