//! Risk gating at enqueue time.
//!
//! Actions are classified one by one, not run by run: one run's comment can be sent while the
//! issue from the same run waits for a human.
//!
//! The classification happens when the action is created: the status a row is written with is
//! what decides whether it is ever picked up, so gating is the only path rather than a
//! second chance. The reasons travel with the class.
//!
//! The first write to any outside system is approved by a human, whatever the mode.

use vstd::prelude::*;

use crate::autonomy::{disposed, disposition, Disposition};
use crate::model::{AutonomyMode, Destination, PublishActionStatus, RiskAssessment, RiskClass};
use crate::text::{cat3, opt_text, stands_at, stands_inside, within};

verus! {

/// One action, classified and dispositioned.
#[derive(Clone, Debug, PartialEq, Eq)]
pub struct GatedAction {
    /// The class and every reason for it.
    pub assessment: RiskAssessment,
    /// What is done with an action of that class under the mode in force.
    pub disposition: Disposition,
}

impl GatedAction {
    /// The status this action is written with; nothing only when no review runs.
    pub fn initial_status(&self) -> (r: Option<PublishActionStatus>)
        ensures
            r == self.disposition.first_status(),
    {
        self.disposition.initial_status()
    }

    /// Whether a human has to see this before it goes.
    pub fn needs_approval(&self) -> (r: bool)
        ensures
            r == (self.disposition == Disposition::AwaitApproval),
    {
        matches!(self.disposition, Disposition::AwaitApproval)
    }

    /// The line the approvals inbox and the audit log show.
    pub fn explain(&self) -> (r: String)
        ensures
            r@ == self.assessment.explanation@,
    {
        self.assessment.explanation.clone()
    }
}

/// Whether an action would be the first write to an outside system: none of its kind has
/// succeeded there, and its effect does not stay on this machine.
pub open spec fn first_write(previously_succeeded: bool, destination: Destination) -> bool {
    !previously_succeeded && destination == Destination::External
}

/// What happens to an action of a class under a mode: what the mode does with the class, except
/// that a first write waits for a human where it would be sent.
pub open spec fn gated(
    mode: AutonomyMode,
    class: RiskClass,
    previously_succeeded: bool,
    destination: Destination,
) -> Disposition {
    if first_write(previously_succeeded, destination) && disposed(mode, class) == Disposition::Send {
        Disposition::AwaitApproval
    } else {
        disposed(mode, class)
    }
}

/// What happens to an action of a class under the mode in force.
pub fn gated_disposition(
    mode: AutonomyMode,
    class: RiskClass,
    previously_succeeded: bool,
    destination: Destination,
) -> (r: Disposition)
    ensures
        r == gated(mode, class, previously_succeeded, destination),
{
    let plain = disposition(mode, class);
    if !previously_succeeded && matches!(destination, Destination::External) && plain.sends() {
        Disposition::AwaitApproval
    } else {
        plain
    }
}

/// Decide what happens to one action that has been classified, under the mode in force, given
/// whether an action of its kind has succeeded at its target before and where its effect lands.
pub fn gate(
    assessment: RiskAssessment,
    mode: AutonomyMode,
    previously_succeeded: bool,
    destination: Destination,
) -> (r: GatedAction)
    ensures
        r.assessment == assessment,
        r.disposition == gated(mode, assessment.class, previously_succeeded, destination),
        previously_succeeded || destination == Destination::Local ==> r.disposition == disposed(
            mode,
            assessment.class,
        ),
        !previously_succeeded && destination == Destination::External ==> r.disposition
            != Disposition::Send,
        !previously_succeeded && destination == Destination::External && mode == AutonomyMode::Auto
            ==> r.disposition == Disposition::AwaitApproval,
{
    GatedAction {
        disposition: gated_disposition(mode, assessment.class, previously_succeeded, destination),
        assessment,
    }
}

/// Why one action is waiting, and which setting would release it.
#[derive(Clone, Debug, PartialEq, Eq)]
pub struct Held {
    /// What is holding it, in one sentence.
    pub reason: String,
    /// What would release it, when anything would: advice that cannot work is worse than none.
    pub remedy: Option<String>,
}

/// What is holding an action.
pub open spec fn held_reason(risk: RiskClass, mode: AutonomyMode) -> Seq<char> {
    match mode {
        AutonomyMode::Auto => "queued while a narrower mode was in force"@,
        AutonomyMode::AutoLowAskHigh => match risk {
            RiskClass::High => "high risk, and the global autonomy is `auto_low_ask_high`"@,
            RiskClass::Low => "low risk, so the class is not what held it — first use of this target and capability pair (§12.3) is the usual reason"@,
        },
        _ => "the global autonomy is `"@ + mode.word() + "`, which publishes nothing on its own"@,
    }
}

/// What would release it.
pub open spec fn held_remedy(risk: RiskClass, mode: AutonomyMode) -> Option<Seq<char>> {
    match mode {
        AutonomyMode::Auto => Some("approving it sends it; nothing needs changing"@),
        AutonomyMode::AutoLowAskHigh => match risk {
            RiskClass::High => Some(
                "set the global mode to `auto` (§13.1's `[global] mode`); a repository's own `autonomy` widens the other half of `min(global, repo)` only"@,
            ),
            RiskClass::Low => None,
        },
        _ => Some("set the global mode to `auto` or `auto_low_ask_high`"@),
    }
}

/// Why this action is waiting, in terms of settings.
///
/// An item queued before somebody widened the mode is still waiting, and telling them to
/// widen it again would be nonsense. First use is meant to be answered once, by a person
/// looking at the payload, so nothing is offered against it.
pub fn held_by(risk: RiskClass, mode: AutonomyMode) -> (r: Held)
    ensures
        r.reason@ == held_reason(risk, mode),
        opt_text(r.remedy) == held_remedy(risk, mode),
{
    match mode {
        AutonomyMode::Auto => Held {
            reason: "queued while a narrower mode was in force".to_owned(),
            remedy: Some("approving it sends it; nothing needs changing".to_owned()),
        },
        AutonomyMode::AutoLowAskHigh => match risk {
            RiskClass::High => Held {
                reason: "high risk, and the global autonomy is `auto_low_ask_high`".to_owned(),
                remedy: Some(
                    "set the global mode to `auto` (§13.1's `[global] mode`); a repository's own `autonomy` widens the other half of `min(global, repo)` only".to_owned(),
                ),
            },
            RiskClass::Low => Held {
                reason: "low risk, so the class is not what held it — first use of this target and capability pair (§12.3) is the usual reason".to_owned(),
                remedy: None,
            },
        },
        AutonomyMode::DryRun | AutonomyMode::Off => Held {
            reason: cat3(
                "the global autonomy is `",
                mode.as_str(),
                "`, which publishes nothing on its own",
            ),
            remedy: Some("set the global mode to `auto` or `auto_low_ask_high`".to_owned()),
        },
    }
}

// --- what holds of gating ---

/// The first write to an outside system is never sent on its own: under every mode in which it
/// would be, it waits for a human, and no mode sends it.
pub proof fn the_first_write_is_approved(mode: AutonomyMode, class: RiskClass)
    ensures
        gated(mode, class, false, Destination::External) != Disposition::Send,
        disposed(mode, class) == Disposition::Send ==> gated(mode, class, false, Destination::External)
            == Disposition::AwaitApproval,
        gated(AutonomyMode::Auto, class, false, Destination::External) == Disposition::AwaitApproval,
{
}

/// The rule only ever holds back: what is gated is what the mode does with the class, or it waits
/// for a human.
pub proof fn the_gate_only_holds_back(
    mode: AutonomyMode,
    class: RiskClass,
    previously_succeeded: bool,
    destination: Destination,
)
    ensures
        gated(mode, class, previously_succeeded, destination) == disposed(mode, class) || gated(
            mode,
            class,
            previously_succeeded,
            destination,
        ) == Disposition::AwaitApproval,
        gated(mode, class, true, destination) == disposed(mode, class),
        gated(mode, class, previously_succeeded, Destination::Local) == disposed(mode, class),
{
}

/// The advice works: where a wider global mode is offered as the remedy, an action of that
/// class is sent under it, unless it is a first write.
pub proof fn the_remedy_releases(
    risk: RiskClass,
    mode: AutonomyMode,
    previously_succeeded: bool,
    destination: Destination,
)
    requires
        mode != AutonomyMode::Auto,
        held_remedy(risk, mode) is Some,
        !first_write(previously_succeeded, destination),
    ensures
        gated(AutonomyMode::Auto, risk, previously_succeeded, destination) == Disposition::Send,
        gated(mode, risk, previously_succeeded, destination) != Disposition::Send,
{
}

/// What goes out by itself: what the mode sends, to a place that was written to before or is here.
pub proof fn what_goes_out_by_itself(
    mode: AutonomyMode,
    class: RiskClass,
    previously_succeeded: bool,
    destination: Destination,
)
    ensures
        gated(mode, class, previously_succeeded, destination) is Send <==> (previously_succeeded || destination is Local)
            && (mode is Auto || (mode is AutoLowAskHigh && class is Low)),
        gated(mode, class, previously_succeeded, destination) is NoReview <==> mode is Off,
        gated(mode, class, previously_succeeded, destination) is RecordOnly <==> mode is DryRun,
{
}

/// Why an action was held tells the mode, where that held it, and the risk where that did; and there is
/// something to do about it wherever the mode is what held it.
pub proof fn why_it_was_held_is_told(risk: RiskClass, mode: AutonomyMode)
    ensures
        mode is Off || mode is DryRun ==> within(held_reason(risk, mode), "`"@ + mode.word() + "`"@),
        mode is AutoLowAskHigh && risk is High ==> within(held_reason(risk, mode), "high risk"@),
        mode is AutoLowAskHigh && risk is Low ==> within(held_reason(risk, mode), "low risk"@),
        held_remedy(risk, mode) is None <==> mode is AutoLowAskHigh && risk is Low,
{
    if mode is Off || mode is DryRun {
        reveal_strlit("the global autonomy is `");
        reveal_strlit("`, which publishes nothing on its own");
        reveal_strlit("`");
        let head = "the global autonomy is `"@;
        let tail = "`, which publishes nothing on its own"@;
        let n = head.len() - 1;
        assert(head =~= head.take(n) + "`"@);
        assert(tail =~= "`"@ + tail.skip(1));
        let told = "`"@ + mode.word() + "`"@;
        stands_inside(head.take(n), told, tail.skip(1));
        assert(head.take(n) + told + tail.skip(1) =~= held_reason(risk, mode));
    } else if mode is AutoLowAskHigh && risk is High {
        reveal_strlit("high risk, and the global autonomy is `auto_low_ask_high`");
        reveal_strlit("high risk");
        let all = "high risk, and the global autonomy is `auto_low_ask_high`"@;
        assert(all.subrange(0, 9) =~= "high risk"@);
        assert(stands_at(all, "high risk"@, 0));
    } else if mode is AutoLowAskHigh {
        reveal_strlit(
            "low risk, so the class is not what held it — first use of this target and capability pair (§12.3) is the usual reason",
        );
        reveal_strlit("low risk");
        let all = held_reason(risk, mode);
        assert(all.subrange(0, 8) =~= "low risk"@);
        assert(stands_at(all, "low risk"@, 0));
    }
}

} // verus!
