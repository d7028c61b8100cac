//! The decisions of a local, autonomous code review daemon: what is reviewed, how
//! deeply, what is said about it, and what may be sent where.
//!
//! Everything here is a function from values to values. Reading a clock, a disk, a
//! database or a socket belongs to the program around the library, which hands the
//! answers in and acts on what comes out.
//!
//! - What everything is stated with: [`text`], [`clock`], [`globs`], [`model`].
//! - One review: [`truncation`], [`depth`], [`normalize`], [`prompt`], [`pipeline`],
//!   [`engines`].
//! - The loop: [`executor`], [`state_machine`], [`triggers`], [`scheduler`], [`backfill`],
//!   [`autopilot`].
//! - What it may do: [`budgets`], [`autonomy`], [`gating`], [`approvals`], [`kill_switch`],
//!   [`notify`].
//! - What it watches: [`poll`], [`scan`], [`repos`], [`hooks`], [`trigger_receiver`],
//!   [`startup`].
//! - What is shown: [`doctor`], [`view`], [`dashboard`], [`run_view`], [`findings_view`],
//!   [`repository_view`], [`approvals_view`], [`settings_view`], [`onboarding`].

use vstd::prelude::*;

pub mod text;
pub mod clock;
pub mod globs;
pub mod model;
pub mod truncation;
pub mod depth;
pub mod normalize;
pub mod prompt;
pub mod pipeline;
pub mod engines;
pub mod executor;
pub mod state_machine;
pub mod triggers;
pub mod scheduler;
pub mod backfill;
pub mod autopilot;
pub mod budgets;
pub mod autonomy;
pub mod gating;
pub mod approvals;
pub mod kill_switch;
pub mod notify;
pub mod poll;
pub mod scan;
pub mod repos;
pub mod hooks;
pub mod startup;
pub mod doctor;
pub mod view;
pub mod dashboard;
pub mod run_view;
pub mod findings_view;
pub mod repository_view;
pub mod approvals_view;
pub mod settings_view;
pub mod onboarding;
pub mod trigger_receiver;

pub use approvals::{
    decision_detail, expires_at, expiry_detail, payload_matches_approval, verify_before_send, ApprovalError,
    Decision, InboxItem, AUDIT_KIND_EXPIRED, DEFAULT_APPROVAL_TTL_HOURS, REASON_EXPIRED,
};
pub use autonomy::{
    disposition, mode_change_detail, reviews_run, widens, Disposition, AUDIT_KIND_MODE_CHANGED,
};
pub use budgets::{
    day_of, exhausted_detail, records_the_change, resumes_after_reset, BudgetVerdict, Exhausted, RunSlots,
    AUDIT_KIND_BUDGET_EXHAUSTED, DEFAULT_MAX_CONCURRENT_RUNS,
};
pub use gating::{gate, GatedAction};
pub use kill_switch::{
    cancels, may_dispatch, switch_detail, PauseReport, AUDIT_KIND_PAUSED, AUDIT_KIND_RESUMED, CANCELLABLE,
};
pub use state_machine::{
    NullSink, RecoveryReport, RunEvent, RunEventSink, DEFAULT_MAX_ATTEMPTS, INTERRUPTED,
};

verus! {

/// The name of this crate.
pub const CRATE_NAME: &'static str = "revlocal-daemon";

} // verus!
