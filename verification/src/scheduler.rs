//! The daemon's decision loop: what to do next, from what is known.
//!
//! # A decision function, not a loop
//!
//! [`Scheduler::tick`] takes the world's state and returns what to do about it. It does not
//! sleep, spawn, or touch a database.
//!
//! # The ordering is the whole design
//!
//! 1. **The kill switch**: a human said stop, and nothing outranks that.
//! 2. **Concurrency**: without a slot there is nowhere for work to go.
//! 3. **Budget**: an unmeasured day stops work like an exhausted one.
//! 4. **Precedence**: live work before backfill, always.
//!
//! Reordering any pair changes what an operator is told when two things are true at once.

use std::collections::BTreeMap;

use vstd::prelude::*;

use crate::backfill::Yielded;
use crate::budgets::BudgetVerdict;
use crate::model::TriggerSource;
use crate::text::{cat4, cat5, count, decimal, decimal_int, signed, stands_inside, within};
use crate::triggers::DiscoveryPass;

verus! {

/// Why the scheduler is not starting work right now.
#[derive(Clone, Debug, PartialEq, Eq)]
pub enum Idle {
    /// Nothing is waiting.
    NothingToDo,
    /// A human engaged the kill switch.
    Killed,
    /// Every run slot is occupied.
    AtCapacity {
        /// How many are in flight.
        running: usize,
        /// The configured ceiling.
        limit: usize,
    },
    /// A budget stopped it.
    Budget {
        /// Which repository.
        repo_id: i64,
        /// What to record and show.
        reason: String,
    },
}

impl Idle {
    /// A line for the terminal and the UI. Every state says something: a daemon that prints
    /// nothing while doing nothing looks like one that has crashed.
    pub open spec fn line(self) -> Seq<char> {
        match self {
            Self::NothingToDo => "idle: no repository has work waiting"@,
            Self::Killed => "stopped: the kill switch is engaged; `revlocal resume` releases it"@,
            Self::AtCapacity { running, limit } => "waiting: "@ + decimal(running as nat) + " of "@
                + decimal(limit as nat) + " run slots in use (§13.1 max_concurrent_runs)"@,
            Self::Budget { repo_id, reason } => "holding repo "@ + decimal_int(repo_id as int) + ": "@
                + reason@,
        }
    }

    /// A line for the terminal and the UI.
    pub fn summary_line(&self) -> (r: String)
        ensures
            r@ == self.line(),
    {
        match self {
            Self::NothingToDo => "idle: no repository has work waiting".to_owned(),
            Self::Killed => "stopped: the kill switch is engaged; `revlocal resume` releases it".to_owned(),
            Self::AtCapacity { running, limit } => cat5(
                "waiting: ",
                count(*running).as_str(),
                " of ",
                count(*limit).as_str(),
                " run slots in use (§13.1 max_concurrent_runs)",
            ),
            Self::Budget { repo_id, reason } => cat4(
                "holding repo ",
                signed(*repo_id).as_str(),
                ": ",
                reason.as_str(),
            ),
        }
    }

    /// Whether this is a state somebody should look at: capacity and an empty queue are the
    /// system working.
    pub fn needs_attention(&self) -> (r: bool)
        ensures
            r == (self is Killed || self is Budget),
    {
        matches!(self, Self::Killed | Self::Budget { .. })
    }
}

/// What the scheduler decided to do.
#[derive(Clone, Debug, PartialEq, Eq)]
pub enum Decision {
    /// Run this discovery pass.
    Discover(DiscoveryPass),
    /// Review the next backfill item for this repository.
    Backfill {
        /// Which repository.
        repo_id: i64,
    },
    /// Do nothing, for a stated reason.
    Idle(Idle),
}

/// What a decision comes to.
pub enum Choice {
    /// Run a discovery pass.
    Discover { repo_id: i64, sources: Seq<TriggerSource> },
    /// Review the next backfill item.
    Backfill { repo_id: i64 },
    /// Nothing is waiting.
    NothingToDo,
    /// The kill switch is engaged.
    Killed,
    /// Every slot is taken.
    AtCapacity { running: int, limit: int },
    /// A budget stopped it.
    Budget { repo_id: i64, reason: Seq<char> },
}

impl View for Decision {
    type V = Choice;

    open spec fn view(&self) -> Choice {
        match *self {
            Decision::Discover(pass) => Choice::Discover {
                repo_id: pass.repo_id,
                sources: pass.sources@,
            },
            Decision::Backfill { repo_id } => Choice::Backfill { repo_id },
            Decision::Idle(Idle::NothingToDo) => Choice::NothingToDo,
            Decision::Idle(Idle::Killed) => Choice::Killed,
            Decision::Idle(Idle::AtCapacity { running, limit }) => Choice::AtCapacity {
                running: running as int,
                limit: limit as int,
            },
            Decision::Idle(Idle::Budget { repo_id, reason }) => Choice::Budget {
                repo_id,
                reason: reason@,
            },
        }
    }
}

impl Decision {
    /// Whether this starts work.
    pub fn starts_work(&self) -> (r: bool)
        ensures
            r == (self is Discover || self is Backfill),
    {
        matches!(self, Self::Discover(_) | Self::Backfill { .. })
    }
}

/// Everything a tick needs to know, gathered by the caller.
#[derive(Debug)]
pub struct WorldState {
    /// Whether a human engaged the kill switch.
    pub killed: bool,
    /// Runs currently executing.
    pub running: usize,
    /// The configured ceiling.
    pub slot_limit: usize,
    /// Discovery passes whose coalescing window has closed.
    pub due: Vec<DiscoveryPass>,
    /// Repositories with backfill work waiting.
    pub backfill_waiting: Vec<i64>,
    /// The budget verdict per repository, for those with work.
    pub budgets: BTreeMap<i64, BudgetVerdict>,
}

impl WorldState {
    /// How many runs may be in flight: at least one.
    pub open spec fn slots(self) -> int {
        if self.slot_limit == 0 {
            1
        } else {
            self.slot_limit as int
        }
    }

    /// Why a repository's budget stops work, when it does. A repository that nobody has
    /// checked proceeds: the ledger is read again before each run.
    pub open spec fn blocked(self, repo_id: i64) -> Option<Seq<char>> {
        if self.budgets@.contains_key(repo_id) {
            self.budgets@[repo_id].why()
        } else {
            None
        }
    }

    /// What to do next.
    pub open spec fn choice(self) -> Choice {
        if self.killed {
            Choice::Killed
        } else if self.running >= self.slots() {
            Choice::AtCapacity { running: self.running as int, limit: self.slots() }
        } else if self.due@.len() > 0 {
            match self.blocked(self.due@[0].repo_id) {
                Some(reason) => Choice::Budget { repo_id: self.due@[0].repo_id, reason },
                None => Choice::Discover {
                    repo_id: self.due@[0].repo_id,
                    sources: self.due@[0].sources@,
                },
            }
        } else if self.backfill_waiting@.len() > 0 {
            match self.blocked(self.backfill_waiting@[0]) {
                Some(reason) => Choice::Budget { repo_id: self.backfill_waiting@[0], reason },
                None => Choice::Backfill { repo_id: self.backfill_waiting@[0] },
            }
        } else {
            Choice::NothingToDo
        }
    }

    /// An idle world with capacity.
    pub fn idle(slot_limit: usize) -> (r: WorldState)
        ensures
            !r.killed,
            r.running == 0,
            r.slot_limit == slot_limit,
            r.due@ == Seq::<DiscoveryPass>::empty(),
            r.backfill_waiting@ == Seq::<i64>::empty(),
            r.budgets@ == Map::<i64, BudgetVerdict>::empty(),
    {
        WorldState {
            killed: false,
            running: 0,
            slot_limit,
            due: Vec::new(),
            backfill_waiting: Vec::new(),
            budgets: BTreeMap::new(),
        }
    }

    /// Whether any live work is waiting: what backfill yields to.
    pub fn has_live_work(&self) -> (r: bool)
        ensures
            r == (self.due@.len() > 0),
    {
        !self.due.is_empty()
    }
}

/// Why this repository's budget stops work, if it does.
fn budget_block(world: &WorldState, repo_id: i64) -> (r: Option<String>)
    ensures
        crate::text::opt_text(r) == world.blocked(repo_id),
{
    broadcast use vstd::laws_cmp::group_laws_cmp;

    match world.budgets.get(&repo_id) {
        Some(verdict) => match verdict.reason() {
            Some(reason) => Some(reason.to_owned()),
            None => None,
        },
        None => None,
    }
}

/// Decides what the daemon does next.
#[derive(Clone, Copy, Debug)]
pub struct Scheduler;

impl Scheduler {
    /// Decide one step.
    pub fn tick(&self, world: &WorldState) -> (r: Decision)
        ensures
            r@ == world.choice(),
    {
        if world.killed {
            return Decision::Idle(Idle::Killed);
        }
        let limit: usize = if world.slot_limit == 0 {
            1
        } else {
            world.slot_limit
        };
        if world.running >= limit {
            return Decision::Idle(Idle::AtCapacity { running: world.running, limit });
        }
        // Live work first, and only then its budget, so that the reason reported is about the
        // work that would have run.
        if !world.due.is_empty() {
            let repo_id: i64 = world.due[0].repo_id;
            return match budget_block(world, repo_id) {
                Some(reason) => Decision::Idle(Idle::Budget { repo_id, reason }),
                None => Decision::Discover(copy_pass(&world.due[0])),
            };
        }
        if !world.backfill_waiting.is_empty() {
            let repo_id: i64 = world.backfill_waiting[0];
            return match budget_block(world, repo_id) {
                Some(reason) => Decision::Idle(Idle::Budget { repo_id, reason }),
                None => Decision::Backfill { repo_id },
            };
        }
        Decision::Idle(Idle::NothingToDo)
    }

    /// Why a backfill would stand aside: the question that the backfill itself asks, from the
    /// scheduler's side.
    pub fn backfill_yield(&self, world: &WorldState, repo_id: i64) -> (r: Option<Yielded>)
        ensures
            r is None == (world.due@.len() == 0 && world.blocked(repo_id) is None),
            world.due@.len() > 0 ==> r == Some(Yielded::LiveWorkPending),
            world.due@.len() == 0 && world.blocked(repo_id) is Some ==> {
                &&& r->0 is BudgetExhausted
                &&& r->0->reason@ == world.blocked(repo_id)->0
            },
    {
        if world.has_live_work() {
            return Some(Yielded::LiveWorkPending);
        }
        match budget_block(world, repo_id) {
            Some(reason) => Some(Yielded::BudgetExhausted { reason }),
            None => None,
        }
    }
}

/// A copy of a pass.
pub fn copy_pass(pass: &DiscoveryPass) -> (r: DiscoveryPass)
    ensures
        r.repo_id == pass.repo_id,
        r.sources@ == pass.sources@,
{
    let mut sources: Vec<TriggerSource> = Vec::new();
    let mut i: usize = 0;
    while i < pass.sources.len()
        invariant
            i <= pass.sources.len(),
            sources@ == pass.sources@.take(i as int),
        decreases pass.sources.len() - i,
    {
        sources.push(pass.sources[i]);
        assert(pass.sources@.take(i + 1) =~= pass.sources@.take(i as int).push(pass.sources@[i as int]));
        i += 1;
    }
    assert(pass.sources@.take(pass.sources@.len() as int) =~= pass.sources@);
    DiscoveryPass { repo_id: pass.repo_id, sources }
}

// --- what holds of every decision ---

/// Nothing starts while the kill switch is engaged, and the switch is what is reported.
pub proof fn the_kill_switch_outranks_everything(world: WorldState)
    requires
        world.killed,
    ensures
        world.choice() is Killed,
{
}

/// Nothing starts without a free slot.
pub proof fn nothing_starts_at_capacity(world: WorldState)
    requires
        world.running >= world.slots(),
    ensures
        !(world.choice() is Discover),
        !(world.choice() is Backfill),
{
}

/// Live work always comes before backfill: where a backfill is started, no live work waits
/// and the backfill itself has no reason to stand aside.
pub proof fn backfill_goes_behind_live_work(world: WorldState)
    ensures
        world.choice() is Backfill ==> {
            &&& world.due@.len() == 0
            &&& world.blocked(world.choice()->Backfill_repo_id) is None
        },
        world.due@.len() > 0 ==> !(world.choice() is Backfill),
{
}

/// Work that starts is within its budget, as far as that has been looked at.
pub proof fn what_starts_is_within_budget(world: WorldState)
    ensures
        world.choice() is Discover ==> world.blocked(world.choice()->Discover_repo_id) is None,
        world.choice() is Backfill ==> world.blocked(world.choice()->Backfill_repo_id) is None,
{
}

/// Idleness for want of work is claimed only where there is none.
pub proof fn idle_means_nothing_is_waiting(world: WorldState)
    requires
        world.choice() is NothingToDo,
    ensures
        world.due@.len() == 0,
        world.backfill_waiting@.len() == 0,
{
}

/// What the scheduler does: nothing while the kill switch is engaged or every slot is taken, of
/// which there is always one; then the first discovery pass that is due; then, where none is, the
/// first repository with a backfill. What would start is held where its budget says so.
pub proof fn what_is_started(world: WorldState)
    ensures
        ({
            let slots = if world.slot_limit > 1 {
                world.slot_limit as int
            } else {
                1
            };
            let free = !world.killed && world.running < slots;
            let held = |id: i64| world.budgets@.contains_key(id) && !(world.budgets@[id] is WithinBudget);
            &&& world.choice() is Killed == world.killed
            &&& world.choice() is AtCapacity == (!world.killed && world.running >= slots)
            &&& world.choice() matches Choice::AtCapacity { running, limit } ==> running == world.running && limit
                == slots
            &&& free && world.due@.len() > 0 && !held(world.due@[0].repo_id) ==> world.choice() == (Choice::Discover {
                repo_id: world.due@[0].repo_id,
                sources: world.due@[0].sources@,
            })
            &&& free && world.due@.len() > 0 && held(world.due@[0].repo_id) ==> (world.choice() matches Choice::Budget {
                repo_id,
                ..
            } && repo_id == world.due@[0].repo_id)
            &&& free && world.due@.len() == 0 && world.backfill_waiting@.len() > 0 && !held(
                world.backfill_waiting@[0],
            ) ==> world.choice() == (Choice::Backfill { repo_id: world.backfill_waiting@[0] })
            &&& free && world.due@.len() == 0 && world.backfill_waiting@.len() > 0 && held(
                world.backfill_waiting@[0],
            ) ==> (world.choice() matches Choice::Budget { repo_id, .. } && repo_id == world.backfill_waiting@[0])
            &&& world.choice() is NothingToDo == (free && world.due@.len() == 0 && world.backfill_waiting@.len() == 0)
        }),
{
}

/// What is said while nothing starts tells why: how many slots are taken and of how many, or which
/// repository is held and for what.
pub proof fn what_is_said_tells_why(idle: Idle)
    ensures
        match idle {
            Idle::AtCapacity { running, limit } => within(
                idle.line(),
                decimal(running as nat) + " of "@ + decimal(limit as nat),
            ),
            Idle::Budget { repo_id, reason } => within(idle.line(), decimal_int(repo_id as int)) && reason@.is_suffix_of(
                idle.line(),
            ),
            _ => idle.line().len() > 0,
        },
{
    match idle {
        Idle::AtCapacity { running, limit } => {
            let both = decimal(running as nat) + " of "@ + decimal(limit as nat);
            let end = " run slots in use (§13.1 max_concurrent_runs)"@;
            stands_inside("waiting: "@, both, end);
            assert("waiting: "@ + both + end =~= idle.line());
        },
        Idle::Budget { repo_id, reason } => {
            let rest = ": "@ + reason@;
            stands_inside("holding repo "@, decimal_int(repo_id as int), rest);
            assert("holding repo "@ + decimal_int(repo_id as int) + rest =~= idle.line());
            let all = idle.line();
            assert(all.subrange(all.len() - reason@.len(), all.len() as int) =~= reason@);
        },
        Idle::NothingToDo => {
            reveal_strlit("idle: no repository has work waiting");
        },
        Idle::Killed => {
            reveal_strlit("stopped: the kill switch is engaged; `revlocal resume` releases it");
        },
    }
}

} // verus!
