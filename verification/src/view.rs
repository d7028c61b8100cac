//! One repository, as every screen shows it.

use vstd::prelude::*;

use crate::model::Repo;
use crate::poll::{clamp_warning, HealthReport, PollSchedule, RepoHealth, DEFAULT_POLL_INTERVAL_SECS, MIN_POLL_INTERVAL_SECS};
use crate::text::{opt_text, texts};

verus! {

/// One repository, as every screen shows it.
#[derive(Clone, Debug, PartialEq, Eq)]
pub struct RepoView {
    /// Its number.
    pub id: i64,
    /// Its name.
    pub repo: String,
    /// What kind it is.
    pub kind: String,
    /// Which engine reviews it.
    pub engine: String,
    /// How much may be done for it unattended.
    pub autonomy: String,
    /// Whether it is watched at all.
    pub enabled: bool,
    /// How polling it goes.
    pub health: HealthReport,
}

/// The interval that a repository asks for, where its settings can be read; the default
/// otherwise. A repository whose settings cannot be read is the one that has to be seen.
pub open spec fn asked_interval(configured: Option<u64>) -> u64 {
    match configured {
        Some(secs) => secs,
        None => DEFAULT_POLL_INTERVAL_SECS,
    }
}

/// Whether a report is that of a repository freshly read: nothing has failed, and an interval
/// below the floor is raised and said out loud.
pub open spec fn fresh_report(
    h: HealthReport,
    name: Seq<char>,
    configured: Option<u64>,
    next_poll_in_secs: u64,
) -> bool {
    let asked = asked_interval(configured);
    let raised = asked < MIN_POLL_INTERVAL_SECS;
    &&& h.repo@ == name
    &&& h.health == RepoHealth::Healthy
    &&& h.poll_interval_secs == if raised {
        MIN_POLL_INTERVAL_SECS
    } else {
        asked
    }
    &&& h.configured_interval_clamped == raised
    &&& h.next_poll_in_secs == next_poll_in_secs
    &&& h.consecutive_failures == 0
    &&& h.last_error is None
    &&& texts(h.notes@) == if raised {
        seq![clamp_warning(asked)]
    } else {
        Seq::empty()
    }
}

/// The schedule of a stored repository. It has the repository's own number, so that jitter is
/// the same across restarts.
pub fn schedule_for(repo: &Repo, configured: Option<u64>) -> (r: PollSchedule)
    ensures
        r.repo_id == repo.id,
        r.interval.secs == if asked_interval(configured) < MIN_POLL_INTERVAL_SECS {
            MIN_POLL_INTERVAL_SECS
        } else {
            asked_interval(configured)
        },
        opt_text(r.interval.warning) == if asked_interval(configured) < MIN_POLL_INTERVAL_SECS {
            Some(clamp_warning(asked_interval(configured)))
        } else {
            None
        },
        r.polls == 0,
        r.consecutive_failures == 0,
        r.last_error is None,
{
    let asked: u64 = match configured {
        Some(secs) => secs,
        None => DEFAULT_POLL_INTERVAL_SECS,
    };
    PollSchedule::new(repo.id, asked)
}

/// The health report of a stored repository, given the interval that its settings ask for where
/// they can be read, and how long it is until its next poll.
pub fn report_for(repo: &Repo, configured: Option<u64>, next_poll_in_secs: u64) -> (r: HealthReport)
    ensures
        fresh_report(r, repo.name@, configured, next_poll_in_secs),
{
    schedule_for(repo, configured).health_report(repo.name.as_str(), next_poll_in_secs)
}

impl RepoView {
    /// Whether this shows a repository.
    pub open spec fn shows(self, repo: Repo, configured: Option<u64>, next_poll_in_secs: u64) -> bool {
        &&& self.id == repo.id
        &&& self.repo@ == repo.name@
        &&& self.kind@ == repo.kind.word()
        &&& self.engine@ == repo.engine.word()
        &&& self.autonomy@ == repo.autonomy.word()
        &&& self.enabled == repo.enabled
        &&& fresh_report(self.health, repo.name@, configured, next_poll_in_secs)
    }

    /// Show a repository.
    pub fn of(repo: &Repo, configured: Option<u64>, next_poll_in_secs: u64) -> (r: RepoView)
        ensures
            r.shows(*repo, configured, next_poll_in_secs),
    {
        RepoView {
            id: repo.id,
            repo: repo.name.clone(),
            kind: repo.kind.as_str().to_owned(),
            engine: repo.engine.as_str().to_owned(),
            autonomy: repo.autonomy.as_str().to_owned(),
            enabled: repo.enabled,
            health: report_for(repo, configured, next_poll_in_secs),
        }
    }
}

/// What is shown of a repository is that repository, healthy until a poll says otherwise, at the
/// interval it asks for and never below half a minute: where it asks for less, that is said.
pub proof fn a_repository_is_shown_as_it_is(shown: RepoView, repo: Repo, configured: Option<u64>, next_poll_in_secs: u64)
    requires
        shown.shows(repo, configured, next_poll_in_secs),
    ensures
        shown.id == repo.id,
        shown.repo@ == repo.name@,
        shown.kind@ == repo.kind.word(),
        shown.engine@ == repo.engine.name@,
        shown.autonomy@ == repo.autonomy.word(),
        shown.enabled == repo.enabled,
        shown.health.repo@ == repo.name@,
        shown.health.health == RepoHealth::Healthy,
        shown.health.consecutive_failures == 0 && shown.health.last_error is None,
        shown.health.next_poll_in_secs == next_poll_in_secs,
        configured is None ==> shown.health.poll_interval_secs == 120 && !shown.health.configured_interval_clamped,
        configured matches Some(secs) ==> shown.health.poll_interval_secs == if secs < 30 {
            30
        } else {
            secs
        },
        configured matches Some(secs) ==> shown.health.configured_interval_clamped == (secs < 30),
        shown.health.notes@.len() == if shown.health.configured_interval_clamped {
            1int
        } else {
            0
        },
{
    assert(texts(shown.health.notes@).len() == shown.health.notes@.len());
}

} // verus!
