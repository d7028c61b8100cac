//! What an autonomy mode does to an action.
//!
//! # A dry run records what would have been sent, and sends nothing
//!
//! A dry run that recorded no payload would be a mode in which the only way to find out what
//! is intended is to let it happen. The status is neither a failure nor a rejection: nothing
//! went wrong, and nobody declined it.
//!
//! # The ceiling is a minimum, and it can only ever restrict
//!
//! The narrower of the global mode and the repository's own is in force. A ceiling that a
//! repository could raise would not be a ceiling.

use vstd::prelude::*;

use crate::model::{AutonomyMode, PublishActionStatus, RiskClass};

verus! {

/// What happens to one action under one effective mode.
#[derive(Clone, Copy, Debug, PartialEq, Eq, Structural)]
pub enum Disposition {
    /// The run does not happen at all.
    NoReview,
    /// Recorded with its payload, never sent.
    RecordOnly,
    /// Queued for delivery now.
    Send,
    /// Held for a human.
    AwaitApproval,
}

impl Disposition {
    /// The status an action starts life in. No run means no actions, so there is no row to
    /// give a status to.
    pub open spec fn first_status(self) -> Option<PublishActionStatus> {
        match self {
            Self::NoReview => None,
            Self::RecordOnly => Some(PublishActionStatus::SkippedDryRun),
            Self::Send => Some(PublishActionStatus::Pending),
            Self::AwaitApproval => Some(PublishActionStatus::AwaitingApproval),
        }
    }

    /// The status an action starts life in.
    pub fn initial_status(self) -> (r: Option<PublishActionStatus>)
        ensures
            r == self.first_status(),
    {
        match self {
            Self::NoReview => None,
            Self::RecordOnly => Some(PublishActionStatus::SkippedDryRun),
            Self::Send => Some(PublishActionStatus::Pending),
            Self::AwaitApproval => Some(PublishActionStatus::AwaitingApproval),
        }
    }

    /// Whether anything is sent to a target.
    pub fn sends(self) -> (r: bool)
        ensures
            r == (self == Disposition::Send),
    {
        matches!(self, Self::Send)
    }
}

/// Whether reviews run at all under this mode.
pub fn reviews_run(mode: AutonomyMode) -> (r: bool)
    ensures
        r == (mode != AutonomyMode::Off),
{
    !matches!(mode, AutonomyMode::Off)
}

/// What a mode does with an action of a class.
pub open spec fn disposed(mode: AutonomyMode, risk: RiskClass) -> Disposition {
    match mode {
        AutonomyMode::Off => Disposition::NoReview,
        AutonomyMode::DryRun => Disposition::RecordOnly,
        AutonomyMode::AutoLowAskHigh => match risk {
            RiskClass::Low => Disposition::Send,
            RiskClass::High => Disposition::AwaitApproval,
        },
        AutonomyMode::Auto => Disposition::Send,
    }
}

/// What the effective mode does with an action of a class.
pub fn disposition(mode: AutonomyMode, risk: RiskClass) -> (r: Disposition)
    ensures
        r == disposed(mode, risk),
{
    match mode {
        AutonomyMode::Off => Disposition::NoReview,
        AutonomyMode::DryRun => Disposition::RecordOnly,
        AutonomyMode::AutoLowAskHigh => match risk {
            RiskClass::Low => Disposition::Send,
            RiskClass::High => Disposition::AwaitApproval,
        },
        AutonomyMode::Auto => Disposition::Send,
    }
}

/// The audit event recorded when a mode changes.
pub const AUDIT_KIND_MODE_CHANGED: &'static str = "autonomy_mode_changed";

/// The detail recorded alongside [`AUDIT_KIND_MODE_CHANGED`]. It names both values, because
/// "changed to auto" is unreadable without knowing what it was before.
#[derive(Clone, Debug, PartialEq, Eq)]
pub struct ModeChange {
    /// What the mode is of.
    pub scope: String,
    /// What it was.
    pub from: String,
    /// What it is.
    pub to: String,
    /// Whether less may be done than before.
    pub restricts: bool,
}

/// The detail recorded when a mode changes.
pub fn mode_change_detail(scope: &str, from: AutonomyMode, to: AutonomyMode) -> (r: ModeChange)
    ensures
        r.scope@ == scope@,
        r.from@ == from.word(),
        r.to@ == to.word(),
        r.restricts == (to.freedom() < from.freedom()),
{
    ModeChange {
        scope: scope.to_owned(),
        from: from.as_str().to_owned(),
        to: to.as_str().to_owned(),
        restricts: to.rank() < from.rank(),
    }
}

/// Whether moving from one mode to another grants more freedom: the direction worth noticing.
pub fn widens(from: AutonomyMode, to: AutonomyMode) -> (r: bool)
    ensures
        r == (to.freedom() > from.freedom()),
{
    to.rank() > from.rank()
}

// --- what holds of every mode ---

/// A dry run sends nothing, whatever the risk, and neither does a mode that is off.
pub proof fn a_dry_run_sends_nothing(risk: RiskClass)
    ensures
        disposed(AutonomyMode::DryRun, risk) != Disposition::Send,
        disposed(AutonomyMode::DryRun, risk).first_status() == Some(PublishActionStatus::SkippedDryRun),
        disposed(AutonomyMode::Off, risk).first_status() is None,
{
}

/// The global mode is a ceiling: no repository can have sent what the global mode alone would
/// not have sent.
pub proof fn the_global_mode_is_a_ceiling(global: AutonomyMode, repo: AutonomyMode, risk: RiskClass)
    ensures
        disposed(AutonomyMode::in_force(global, repo), risk) == Disposition::Send ==> disposed(
            global,
            risk,
        ) == Disposition::Send && disposed(repo, risk) == Disposition::Send,
        global == AutonomyMode::Off ==> disposed(AutonomyMode::in_force(global, repo), risk)
            == Disposition::NoReview,
{
}

/// A wider mode sends whatever a narrower one does.
pub proof fn a_wider_mode_sends_no_less(narrow: AutonomyMode, wide: AutonomyMode, risk: RiskClass)
    requires
        narrow.freedom() <= wide.freedom(),
        disposed(narrow, risk) == Disposition::Send,
    ensures
        disposed(wide, risk) == Disposition::Send,
{
}

/// A change of mode widens, restricts, or is none.
pub proof fn a_change_widens_or_restricts(from: AutonomyMode, to: AutonomyMode)
    ensures
        to.freedom() > from.freedom() || to.freedom() < from.freedom() || from == to,
{
}

/// What a mode does: off reviews nothing, a dry run records, asking sends what is of low risk and asks
/// of the rest, and otherwise everything is sent.
pub proof fn what_a_mode_does(mode: AutonomyMode, risk: RiskClass)
    ensures
        disposed(mode, risk) is NoReview <==> mode is Off,
        disposed(mode, risk) is RecordOnly <==> mode is DryRun,
        disposed(mode, risk) is AwaitApproval <==> mode is AutoLowAskHigh && risk is High,
        disposed(mode, risk) is Send <==> mode is Auto || (mode is AutoLowAskHigh && risk is Low),
{
}

/// What an action begins as: nothing where there is no review, passed over where it is only recorded,
/// and otherwise about to go out or waiting for somebody.
pub proof fn what_an_action_begins_as(d: Disposition)
    ensures
        d.first_status() is None <==> d is NoReview,
        d.first_status() == Some(PublishActionStatus::SkippedDryRun) <==> d is RecordOnly,
        d.first_status() == Some(PublishActionStatus::Pending) <==> d is Send,
        d.first_status() == Some(PublishActionStatus::AwaitingApproval) <==> d is AwaitApproval,
{
}

} // verus!
