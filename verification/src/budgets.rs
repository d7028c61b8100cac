//! Budgets and concurrency caps.
//!
//! # Exhausting a budget never drops a change
//!
//! When an allowance runs out, reviewing stops, the work is held, or the change is recorded
//! as skipped with a reason. None of these forgets it.
//!
//! # A day that reported no cost is not a cheap day
//!
//! A day with even one unpriced run cannot be compared against a cost ceiling. It is reported
//! as unmeasurable rather than as under budget: the alternative is a ceiling that stops
//! enforcing the moment an engine stops reporting prices.

use vstd::prelude::*;

use crate::clock::Timestamp;
use crate::model::OnExhausted;
use crate::text::{cat5, cat6, decimal, num, opt_text};

verus! {

/// The calendar day a timestamp falls in, as the ledger keys it.
pub fn day_of(at: Timestamp) -> (r: String)
    requires
        at.in_calendar(),
    ensures
        r@ == at.day(),
{
    at.day_text()
}

/// Which allowance ran out.
#[derive(Clone, Copy, Debug, PartialEq, Eq, Structural)]
pub enum Exhausted {
    /// Daily token allowance.
    Tokens,
    /// Daily run allowance.
    Runs,
    /// Daily cost allowance.
    Cost,
}

impl Exhausted {
    /// How this reads in a skip reason and in the UI.
    pub open spec fn word(self) -> Seq<char> {
        match self {
            Self::Tokens => "daily token budget"@,
            Self::Runs => "daily run budget"@,
            Self::Cost => "daily cost budget"@,
        }
    }

    /// How this reads in a skip reason and in the UI.
    pub fn as_str(self) -> (r: &'static str)
        ensures
            r@ == self.word(),
    {
        match self {
            Self::Tokens => "daily token budget",
            Self::Runs => "daily run budget",
            Self::Cost => "daily cost budget",
        }
    }
}

/// What one repository has spent in one day.
#[derive(Clone, Copy, Debug, PartialEq, Eq, Structural)]
pub struct LedgerEntry {
    /// Runs that were made.
    pub runs: u32,
    /// Tokens read.
    pub tokens_in: u64,
    /// Tokens written.
    pub tokens_out: u64,
}

/// What one repository may spend in a day. Zero means unlimited.
#[derive(Clone, Copy, Debug, PartialEq, Eq, Structural)]
pub struct BudgetSettings {
    /// Runs.
    pub daily_runs_per_repo: u32,
    /// Tokens.
    pub daily_tokens_per_repo: u64,
    /// What happens when an allowance runs out.
    pub on_exhausted: OnExhausted,
}

impl Default for BudgetSettings {
    /// What a fresh install allows.
    fn default() -> (r: BudgetSettings)
        ensures
            r.daily_runs_per_repo == 200,
            r.daily_tokens_per_repo == 2_000_000,
            r.on_exhausted == OnExhausted::Pause,
    {
        BudgetSettings {
            daily_runs_per_repo: 200,
            daily_tokens_per_repo: 2_000_000,
            on_exhausted: OnExhausted::Pause,
        }
    }
}

/// How a day's cost compares with its ceiling. Amounts are in dollars, with two decimals.
#[derive(Clone, Debug, PartialEq, Eq)]
pub enum CostReading {
    /// No ceiling is set, nothing has been spent, or what has been spent is below it.
    Within,
    /// What has been spent has reached the ceiling.
    Reached {
        /// What has been spent.
        cost: String,
        /// The ceiling.
        ceiling: String,
    },
    /// A ceiling is set, and a run of the day reported no price.
    Unmeasured {
        /// What is known to have been spent, as a lower bound.
        known: String,
        /// The ceiling.
        ceiling: String,
    },
}

/// What the budget check concluded.
#[derive(Clone, Debug, PartialEq, Eq)]
pub enum BudgetVerdict {
    /// There is room; proceed.
    WithinBudget,
    /// Out of allowance.
    Exhausted {
        /// Which allowance.
        which: Exhausted,
        /// What is to be done about it.
        action: OnExhausted,
        /// A sentence for the run row, the UI and the log.
        reason: String,
    },
    /// A cost ceiling is configured and the day's cost cannot be measured. Deliberately not
    /// within budget.
    CostUnmeasurable {
        /// What is known to have been spent, as a lower bound.
        known_cost: String,
        /// The ceiling it could not be compared against.
        ceiling: String,
        /// A sentence explaining it.
        reason: String,
    },
}

impl BudgetVerdict {
    /// The reason to record, if any.
    pub open spec fn why(self) -> Option<Seq<char>> {
        match self {
            Self::WithinBudget => None,
            Self::Exhausted { reason, .. } => Some(reason@),
            Self::CostUnmeasurable { reason, .. } => Some(reason@),
        }
    }

    /// Whether a run may start.
    pub fn allows_run(&self) -> (r: bool)
        ensures
            r == (self is WithinBudget),
    {
        matches!(self, Self::WithinBudget)
    }

    /// The reason to record on a skipped or held change, if any.
    pub fn reason(&self) -> (r: Option<&str>)
        ensures
            crate::text::opt_str(r) == self.why(),
            r is None == (self is WithinBudget),
    {
        match self {
            Self::WithinBudget => None,
            Self::Exhausted { reason, .. } => Some(reason.as_str()),
            Self::CostUnmeasurable { reason, .. } => Some(reason.as_str()),
        }
    }
}

/// Runs made on a day; none on a day without an entry.
pub open spec fn runs_spent(spent: Option<&LedgerEntry>) -> nat {
    match spent {
        Some(entry) => entry.runs as nat,
        None => 0,
    }
}

/// Tokens spent on a day; none on a day without an entry.
pub open spec fn tokens_spent(spent: Option<&LedgerEntry>) -> nat {
    match spent {
        Some(entry) => (entry.tokens_in + entry.tokens_out) as nat,
        None => 0,
    }
}

/// Whether a verdict is what a day's spending comes to: runs are looked at first, tokens
/// next, cost last.
pub open spec fn is_verdict(
    r: BudgetVerdict,
    spent: Option<&LedgerEntry>,
    budget: BudgetSettings,
    cost: CostReading,
) -> bool {
    let runs = runs_spent(spent);
    let tokens = tokens_spent(spent);
    if budget.daily_runs_per_repo > 0 && runs >= budget.daily_runs_per_repo {
        r matches BudgetVerdict::Exhausted { which, action, reason } && which == Exhausted::Runs && action
            == budget.on_exhausted && reason@ == Exhausted::Runs.word() + " reached: "@ + decimal(runs)
            + " of "@ + decimal(budget.daily_runs_per_repo as nat) + " runs today"@
    } else if budget.daily_tokens_per_repo > 0 && tokens >= budget.daily_tokens_per_repo {
        r matches BudgetVerdict::Exhausted { which, action, reason } && which == Exhausted::Tokens
            && action == budget.on_exhausted && reason@ == Exhausted::Tokens.word() + " reached: "@
            + decimal(tokens) + " of "@ + decimal(budget.daily_tokens_per_repo as nat)
            + " tokens today"@
    } else {
        match cost {
            CostReading::Within => r is WithinBudget,
            CostReading::Reached { cost: amount, ceiling } => r matches BudgetVerdict::Exhausted {
                which,
                action,
                reason,
            } && which == Exhausted::Cost && action == budget.on_exhausted && reason@
                == Exhausted::Cost.word() + " reached: $"@ + amount@ + " of $"@ + ceiling@ + " today"@,
            CostReading::Unmeasured { known, ceiling } => r matches BudgetVerdict::CostUnmeasurable {
                known_cost,
                ceiling: limit,
                reason,
            } && known_cost@ == known@ && limit@ == ceiling@ && reason@
                == "today's cost cannot be measured: at least $"@ + known@ + " of $"@ + ceiling@
                + " is known, and at least one run reported no price (decision D10)"@,
        }
    }
}

/// Check one repository's spend for one day against its budget.
///
/// A day without an entry is one on which nothing has been spent.
pub fn check(spent: Option<&LedgerEntry>, budget: &BudgetSettings, cost: &CostReading) -> (r: BudgetVerdict)
    requires
        tokens_spent(spent) <= u64::MAX,
    ensures
        is_verdict(r, spent, *budget, *cost),
{
    let runs: u32 = match spent {
        Some(entry) => entry.runs,
        None => 0,
    };
    let tokens: u64 = match spent {
        Some(entry) => entry.tokens_in + entry.tokens_out,
        None => 0,
    };
    if budget.daily_runs_per_repo > 0 && runs >= budget.daily_runs_per_repo {
        return BudgetVerdict::Exhausted {
            which: Exhausted::Runs,
            action: budget.on_exhausted,
            reason: cat6(
                Exhausted::Runs.as_str(),
                " reached: ",
                num(runs as u64).as_str(),
                " of ",
                num(budget.daily_runs_per_repo as u64).as_str(),
                " runs today",
            ),
        };
    }
    if budget.daily_tokens_per_repo > 0 && tokens >= budget.daily_tokens_per_repo {
        return BudgetVerdict::Exhausted {
            which: Exhausted::Tokens,
            action: budget.on_exhausted,
            reason: cat6(
                Exhausted::Tokens.as_str(),
                " reached: ",
                num(tokens).as_str(),
                " of ",
                num(budget.daily_tokens_per_repo).as_str(),
                " tokens today",
            ),
        };
    }
    match cost {
        CostReading::Within => BudgetVerdict::WithinBudget,
        CostReading::Reached { cost: amount, ceiling } => BudgetVerdict::Exhausted {
            which: Exhausted::Cost,
            action: budget.on_exhausted,
            reason: cat6(
                Exhausted::Cost.as_str(),
                " reached: $",
                amount.as_str(),
                " of $",
                ceiling.as_str(),
                " today",
            ),
        },
        CostReading::Unmeasured { known, ceiling } => BudgetVerdict::CostUnmeasurable {
            known_cost: known.clone(),
            ceiling: ceiling.clone(),
            reason: cat5(
                "today's cost cannot be measured: at least $",
                known.as_str(),
                " of $",
                ceiling.as_str(),
                " is known, and at least one run reported no price (decision D10)",
            ),
        },
    }
}

/// Whether a change detected under this verdict is still recorded. Always: what to do about
/// an exhausted budget differs in what happens to the review, never in whether the change is
/// written down.
pub fn records_the_change(_verdict: &BudgetVerdict) -> (r: bool)
    ensures
        r,
{
    true
}

/// Whether a change should be reviewed once budget returns. A skipped one was recorded with a
/// decision, which reviewing it tomorrow would contradict.
pub open spec fn comes_back(action: OnExhausted) -> bool {
    action != OnExhausted::Skip
}

/// Whether a change should be reviewed once budget returns.
pub fn resumes_after_reset(action: OnExhausted) -> (r: bool)
    ensures
        r == comes_back(action),
{
    matches!(action, OnExhausted::Pause | OnExhausted::Queue)
}

/// The audit event for a budget stopping work.
pub const AUDIT_KIND_BUDGET_EXHAUSTED: &'static str = "budget_exhausted";

/// The audit detail for it.
#[derive(Clone, Debug, PartialEq, Eq)]
pub struct ExhaustedDetail {
    /// Which repository.
    pub repo: String,
    /// Which day.
    pub day: String,
    /// Why.
    pub reason: Option<String>,
    /// Whether the work comes back once the budget does.
    pub resumes_after_reset: bool,
}

/// The audit detail for a budget stopping work. An unmeasurable day is no decision about the
/// change, so it comes back once a priced run lands or the day rolls over.
pub fn exhausted_detail(repo: &str, day: &str, verdict: &BudgetVerdict) -> (r: ExhaustedDetail)
    ensures
        r.repo@ == repo@,
        r.day@ == day@,
        opt_text(r.reason) == verdict.why(),
        r.resumes_after_reset == match *verdict {
            BudgetVerdict::Exhausted { action, .. } => comes_back(action),
            _ => true,
        },
{
    ExhaustedDetail {
        repo: repo.to_owned(),
        day: day.to_owned(),
        reason: match verdict.reason() {
            Some(reason) => Some(reason.to_owned()),
            None => None,
        },
        resumes_after_reset: match verdict {
            BudgetVerdict::Exhausted { action, .. } => resumes_after_reset(*action),
            _ => true,
        },
    }
}

/// The default cap on runs in flight.
pub const DEFAULT_MAX_CONCURRENT_RUNS: usize = 2;

/// The global cap on runs in flight.
#[derive(Clone, Copy, Debug, PartialEq, Eq, Structural)]
pub struct RunSlots {
    limit: usize,
}

impl RunSlots {
    /// How many runs may be in flight.
    pub closed spec fn cap(self) -> int {
        self.limit as int
    }

    /// A cap of `limit` concurrent runs. Zero is treated as one: a cap of zero would mean
    /// that nothing ever runs.
    pub fn new(limit: usize) -> (r: RunSlots)
        ensures
            r.cap() == if limit == 0 {
                1
            } else {
                limit as int
            },
    {
        RunSlots {
            limit: if limit == 0 {
                1
            } else {
                limit
            },
        }
    }

    /// The configured cap.
    pub fn limit(&self) -> (r: usize)
        ensures
            r == self.cap(),
    {
        self.limit
    }
}

impl Default for RunSlots {
    /// The default cap.
    fn default() -> (r: RunSlots)
        ensures
            r.cap() == DEFAULT_MAX_CONCURRENT_RUNS,
    {
        RunSlots::new(DEFAULT_MAX_CONCURRENT_RUNS)
    }
}

// --- what holds of every verdict ---

/// A day that cannot be measured is never taken for a cheap one.
pub proof fn an_unmeasured_day_allows_no_run(
    r: BudgetVerdict,
    spent: Option<&LedgerEntry>,
    budget: BudgetSettings,
    cost: CostReading,
)
    requires
        is_verdict(r, spent, budget, cost),
        cost is Unmeasured,
    ensures
        !(r is WithinBudget),
        r.why() is Some,
{
}

/// A run may start exactly when no allowance has run out; whatever stops it gives a reason.
pub proof fn a_stopped_run_says_why(
    r: BudgetVerdict,
    spent: Option<&LedgerEntry>,
    budget: BudgetSettings,
    cost: CostReading,
)
    requires
        is_verdict(r, spent, budget, cost),
    ensures
        (r is WithinBudget) == ((budget.daily_runs_per_repo == 0 || runs_spent(spent)
            < budget.daily_runs_per_repo) && (budget.daily_tokens_per_repo == 0 || tokens_spent(spent)
            < budget.daily_tokens_per_repo) && cost is Within),
        !(r is WithinBudget) ==> r.why() is Some,
{
}

/// What is done about an allowance that has run out is what the settings name, whichever it is.
pub proof fn the_settings_say_what_is_done(
    r: BudgetVerdict,
    spent: Option<&LedgerEntry>,
    budget: BudgetSettings,
    cost: CostReading,
)
    requires
        is_verdict(r, spent, budget, cost),
    ensures
        r matches BudgetVerdict::Exhausted { action, .. } ==> action == budget.on_exhausted,
        r matches BudgetVerdict::Exhausted { action, .. } ==> comes_back(action) == (budget.on_exhausted
            == OnExhausted::Pause || budget.on_exhausted == OnExhausted::Queue),
{
}

/// Each allowance stops a run where what has been spent of it has reached it, and is named as the
/// one that did: runs before tokens, tokens before cost. An allowance of zero stops nothing.
pub proof fn the_allowance_that_ran_out_is_named(
    r: BudgetVerdict,
    entry: LedgerEntry,
    budget: BudgetSettings,
    cost: CostReading,
)
    requires
        is_verdict(r, Some(&entry), budget, cost),
    ensures
        ({
            let runs_out = budget.daily_runs_per_repo != 0 && entry.runs >= budget.daily_runs_per_repo;
            let tokens_out = budget.daily_tokens_per_repo != 0 && entry.tokens_in + entry.tokens_out
                >= budget.daily_tokens_per_repo;
            &&& (r matches BudgetVerdict::Exhausted { which, .. } && which == Exhausted::Runs) == runs_out
            &&& (r matches BudgetVerdict::Exhausted { which, .. } && which == Exhausted::Tokens) == (
            !runs_out && tokens_out)
            &&& (r matches BudgetVerdict::Exhausted { which, .. } && which == Exhausted::Cost) == (!runs_out
                && !tokens_out && cost is Reached)
            &&& r is CostUnmeasurable == (!runs_out && !tokens_out && cost is Unmeasured)
            &&& r is WithinBudget == (!runs_out && !tokens_out && cost is Within)
        }),
{
}

/// On a day on which nothing has been spent, only what is known of its cost can stop a run.
pub proof fn a_fresh_day_is_within_budget(r: BudgetVerdict, budget: BudgetSettings, cost: CostReading)
    requires
        is_verdict(r, None, budget, cost),
    ensures
        r is WithinBudget == (cost is Within),
        r matches BudgetVerdict::Exhausted { which, .. } ==> which == Exhausted::Cost,
{
}

/// Spending more never makes room: where a day stops a run, one on which at least as much has been
/// spent, of runs and of tokens, stops it too.
pub proof fn spending_more_makes_no_room(
    r: BudgetVerdict,
    more: BudgetVerdict,
    entry: LedgerEntry,
    later: LedgerEntry,
    budget: BudgetSettings,
    cost: CostReading,
)
    requires
        is_verdict(r, Some(&entry), budget, cost),
        is_verdict(more, Some(&later), budget, cost),
        entry.runs <= later.runs,
        entry.tokens_in <= later.tokens_in,
        entry.tokens_out <= later.tokens_out,
    ensures
        more is WithinBudget ==> r is WithinBudget,
{
}

/// What a verdict says: which allowance, how much of it has been spent, and how much there is.
pub proof fn a_verdict_tells_the_figures(
    r: BudgetVerdict,
    entry: LedgerEntry,
    budget: BudgetSettings,
    cost: CostReading,
)
    requires
        is_verdict(r, Some(&entry), budget, cost),
    ensures
        r matches BudgetVerdict::Exhausted { which, reason, .. } ==> match which {
            Exhausted::Runs => reason@ == "daily run budget"@ + " reached: "@ + decimal(entry.runs as nat)
                + " of "@ + decimal(budget.daily_runs_per_repo as nat) + " runs today"@,
            Exhausted::Tokens => reason@ == "daily token budget"@ + " reached: "@ + decimal(
                (entry.tokens_in + entry.tokens_out) as nat,
            ) + " of "@ + decimal(budget.daily_tokens_per_repo as nat) + " tokens today"@,
            Exhausted::Cost => cost matches CostReading::Reached { cost: amount, ceiling } && reason@
                == "daily cost budget"@ + " reached: $"@ + amount@ + " of $"@ + ceiling@ + " today"@,
        },
        r matches BudgetVerdict::CostUnmeasurable { known_cost, ceiling, .. } ==> cost matches CostReading::Unmeasured {
            known,
            ceiling: limit,
        } && known_cost@ == known@ && ceiling@ == limit@,
{
}

/// An allowance is told by what it is of.
pub proof fn an_allowance_is_told_by_what_it_is_of(which: Exhausted)
    ensures
        which.word() == "daily token budget"@ <==> which is Tokens,
        which.word() == "daily run budget"@ <==> which is Runs,
        which.word() == "daily cost budget"@ <==> which is Cost,
{
    reveal_strlit("daily token budget");
    reveal_strlit("daily run budget");
    reveal_strlit("daily cost budget");
    assert("daily token budget"@.len() == 18 && "daily run budget"@.len() == 16 && "daily cost budget"@.len() == 17);
}

} // verus!
