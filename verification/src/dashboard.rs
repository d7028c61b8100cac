//! The dashboard: every repository at a glance.

use vstd::prelude::*;

use crate::budgets::{runs_spent, tokens_spent, BudgetSettings, LedgerEntry};
use crate::model::{AutonomyMode, Run};
use crate::repos::{all_modes, value_of};
use crate::text::{
    cat2, cat3, cat4, decimal, decimal_int, first_index_means, num, opt_str, opt_text, signed, stands_inside,
    within,
};
use crate::view::RepoView;

verus! {

/// The setting that holds the global ceiling, when somebody has overridden it. It is a live
/// control and not a change of the configuration, so it is not written back into the file.
pub const SETTING_MODE: &'static str = "global.mode";

/// How many runs are looked at to find a repository's most recent one.
pub const RECENT_RUN_SCAN: u32 = 200;

/// Why the dashboard could not be assembled.
#[derive(Clone, Debug, PartialEq, Eq)]
pub enum DashboardError {
    /// The database could not be read.
    Store {
        /// Why.
        source: String,
    },
    /// The report could not be rendered.
    Unrenderable {
        /// Why.
        source: String,
    },
}

impl DashboardError {
    /// The error in words.
    pub fn describe(&self) -> (r: String)
        ensures
            r@ == match *self {
                Self::Store { source } => "could not read the local database: "@ + source@
                    + "\n  try: revlocal db migrate"@,
                Self::Unrenderable { source } => "could not render the dashboard: "@ + source@,
            },
    {
        match self {
            Self::Store { source } => cat3(
                "could not read the local database: ",
                source.as_str(),
                "\n  try: revlocal db migrate",
            ),
            Self::Unrenderable { source } => cat2("could not render the dashboard: ", source.as_str()),
        }
    }
}

/// What a repository's most recent run was.
#[derive(Clone, Debug, PartialEq, Eq)]
pub struct LastRun {
    /// Its number.
    pub run_id: i64,
    /// Where it ended up.
    pub status: String,
    /// Its verdict, if it reached one.
    pub verdict: Option<String>,
    /// When it finished, if it did.
    pub finished_at: Option<String>,
}

impl LastRun {
    /// Whether this tells of a run.
    pub open spec fn tells(self, run: Run) -> bool {
        &&& self.run_id == run.id
        &&& self.status@ == run.status.word()
        &&& opt_text(self.verdict) == match run.verdict {
            Some(v) => Some(v.word()),
            None => None,
        }
        &&& opt_text(self.finished_at) == match run.finished_at {
            Some(at) => Some(at.rfc3339()),
            None => None,
        }
    }

    /// What a run was.
    pub fn of(run: &Run) -> (r: LastRun)
        requires
            run.finished_at matches Some(at) ==> at.in_calendar(),
        ensures
            r.tells(*run),
    {
        LastRun {
            run_id: run.id,
            status: run.status.as_str().to_owned(),
            verdict: match run.verdict {
                Some(v) => Some(v.as_str().to_owned()),
                None => None,
            },
            finished_at: match run.finished_at {
                Some(at) => Some(at.to_rfc3339()),
                None => None,
            },
        }
    }
}

/// Today's spend against today's ceilings. Every number stands with its limit: a bar that knows
/// only a percentage cannot say of what.
#[derive(Clone, Copy, Debug, PartialEq, Eq, Structural)]
pub struct BudgetBar {
    /// Runs today.
    pub runs: u32,
    /// The daily ceiling on runs. Zero means unlimited.
    pub runs_limit: u32,
    /// Tokens today, as far as anybody knows.
    pub tokens: u64,
    /// The daily ceiling on tokens. Zero means unlimited.
    pub tokens_limit: u64,
    /// Whether that number accounts for every run today. When it does not, it is a lower bound.
    pub tokens_known: bool,
}

/// Today's spend, given the day's entry and whether it accounts for every run. A day without an
/// entry is known: nothing was spent.
pub fn budget_bar(today: Option<&LedgerEntry>, tokens_known: bool, budgets: &BudgetSettings) -> (r: BudgetBar)
    requires
        tokens_spent(today) <= u64::MAX,
    ensures
        r.runs == runs_spent(today),
        r.runs_limit == budgets.daily_runs_per_repo,
        r.tokens == tokens_spent(today),
        r.tokens_limit == budgets.daily_tokens_per_repo,
        r.tokens_known == (today is None || tokens_known),
{
    match today {
        None => BudgetBar {
            runs: 0,
            runs_limit: budgets.daily_runs_per_repo,
            tokens: 0,
            tokens_limit: budgets.daily_tokens_per_repo,
            tokens_known: true,
        },
        Some(entry) => BudgetBar {
            runs: entry.runs,
            runs_limit: budgets.daily_runs_per_repo,
            tokens: entry.tokens_in + entry.tokens_out,
            tokens_limit: budgets.daily_tokens_per_repo,
            tokens_known,
        },
    }
}

/// One repository's card.
#[derive(Clone, Debug, PartialEq, Eq)]
pub struct RepoCard {
    /// The repository.
    pub repo: RepoView,
    /// The most recent run, if there has ever been one.
    pub last_run: Option<LastRun>,
    /// How many runs are waiting.
    pub queue_depth: u32,
    /// Today's spend against today's ceilings.
    pub budget: BudgetBar,
}

/// Put a repository's card together, given its runs, newest first.
pub fn card(repo: RepoView, recent: &Vec<Run>, queue_depth: u32, budget: BudgetBar) -> (r: RepoCard)
    requires
        recent@.len() > 0 ==> (recent@[0].finished_at matches Some(at) ==> at.in_calendar()),
    ensures
        r.repo == repo,
        match r.last_run {
            Some(last) => recent@.len() > 0 && last.tells(recent@[0]),
            None => recent@.len() == 0,
        },
        r.queue_depth == queue_depth,
        r.budget == budget,
{
    let last_run: Option<LastRun> = if recent.len() > 0 {
        Some(LastRun::of(&recent[0]))
    } else {
        None
    };
    RepoCard { repo, last_run, queue_depth, budget }
}

/// The dashboard.
#[derive(Clone, Debug, PartialEq, Eq)]
pub struct Dashboard {
    /// Every repository, in the order of their names.
    pub repos: Vec<RepoCard>,
    /// The global ceiling.
    pub mode: String,
    /// Whether the kill switch is engaged.
    pub paused: bool,
}

/// The ceiling in force: the stored one where it is a mode, and otherwise the default one.
pub open spec fn ceiling(stored: Option<Seq<char>>) -> AutonomyMode {
    match stored {
        Some(value) => match value_of(all_modes(), value) {
            Some(mode) => mode,
            None => AutonomyMode::AutoLowAskHigh,
        },
        None => AutonomyMode::AutoLowAskHigh,
    }
}

/// Put the dashboard together.
pub fn gather(repos: Vec<RepoCard>, stored_mode: Option<&str>, paused: bool) -> (r: Dashboard)
    ensures
        r.repos == repos,
        r.mode@ == ceiling(opt_str(stored_mode)).word(),
        r.paused == paused,
{
    let mode: AutonomyMode = match stored_mode {
        Some(value) => match crate::repos::mode_named(value) {
            Some(mode) => mode,
            None => AutonomyMode::AutoLowAskHigh,
        },
        None => AutonomyMode::AutoLowAskHigh,
    };
    Dashboard { repos, mode: mode.as_str().to_owned(), paused }
}

/// One line of budget. A lower bound does not read as a total.
pub open spec fn budget_line(b: BudgetBar) -> Seq<char> {
    let runs = if b.runs_limit == 0 {
        decimal(b.runs as nat) + " runs"@
    } else {
        decimal(b.runs as nat) + " of "@ + decimal(b.runs_limit as nat) + " runs"@
    };
    let tokens = if b.tokens_limit == 0 {
        decimal(b.tokens as nat) + " tokens"@
    } else {
        decimal(b.tokens as nat) + " of "@ + decimal(b.tokens_limit as nat) + " tokens"@
    };
    "today: "@ + runs + ", "@ + tokens + if b.tokens_known {
        Seq::empty()
    } else {
        " (at least — a run today reported no count)"@
    }
}

/// One line of budget.
pub fn render_budget(b: &BudgetBar) -> (r: String)
    ensures
        r@ == budget_line(*b),
{
    let runs = if b.runs_limit == 0 {
        cat2(num(b.runs as u64).as_str(), " runs")
    } else {
        cat4(num(b.runs as u64).as_str(), " of ", num(b.runs_limit as u64).as_str(), " runs")
    };
    let tokens = if b.tokens_limit == 0 {
        cat2(num(b.tokens).as_str(), " tokens")
    } else {
        cat4(num(b.tokens).as_str(), " of ", num(b.tokens_limit).as_str(), " tokens")
    };
    let mut out = cat4("today: ", runs.as_str(), ", ", tokens.as_str());
    if !b.tokens_known {
        out.append(" (at least — a run today reported no count)");
    }
    assert(out@ =~= budget_line(*b));
    out
}

/// What a card says. That there are no runs is said and not left out: a card without a line
/// about runs reads as one whose runs failed to load.
pub open spec fn card_text(c: RepoCard) -> Seq<char> {
    c.repo.repo@ + "  ["@ + c.repo.health.health.word() + "]\n"@ + match c.last_run {
        Some(run) => "  last run #"@ + decimal_int(run.run_id as int) + " "@ + run.status@ + match run.verdict {
            Some(v) => " ("@ + v@ + ")"@,
            None => Seq::empty(),
        } + "\n"@,
        None => "  no runs yet\n"@,
    } + ("  queued: "@ + decimal(c.queue_depth as nat) + "\n"@) + ("  "@ + budget_line(c.budget) + "\n"@)
}

/// What cards say, one after the other.
pub open spec fn cards_text(cards: Seq<RepoCard>) -> Seq<char>
    decreases cards.len(),
{
    if cards.len() == 0 {
        Seq::empty()
    } else {
        cards_text(cards.drop_last()) + card_text(cards.last())
    }
}

fn write_card(c: &RepoCard) -> (r: String)
    ensures
        r@ == card_text(*c),
{
    let mut out = cat4(c.repo.repo.as_str(), "  [", c.repo.health.health.as_str(), "]\n");
    match &c.last_run {
        Some(run) => {
            let mut line = cat4(
                "  last run #",
                signed(run.run_id).as_str(),
                " ",
                run.status.as_str(),
            );
            if let Some(v) = &run.verdict {
                let verdict = cat3(" (", v.as_str(), ")");
                line.append(verdict.as_str());
            }
            line.append("\n");
            out.append(line.as_str());
        },
        None => out.append("  no runs yet\n"),
    }
    let queued = cat3("  queued: ", num(c.queue_depth as u64).as_str(), "\n");
    out.append(queued.as_str());
    let budget = cat3("  ", render_budget(&c.budget).as_str(), "\n");
    out.append(budget.as_str());
    assert(out@ =~= card_text(*c));
    out
}

impl Dashboard {
    /// The dashboard in words.
    pub open spec fn in_words(self) -> Seq<char> {
        "mode: "@ + self.mode@ + if self.paused {
            "  [PAUSED — revlocal resume]\n\n"@
        } else {
            "\n\n"@
        } + if self.repos@.len() == 0 {
            "no repositories are configured\n  try: revlocal repo add --help\n"@
        } else {
            cards_text(self.repos@)
        }
    }

    /// The dashboard in words.
    pub fn render_human(&self) -> (r: String)
        ensures
            r@ == self.in_words(),
    {
        let mut out = cat3(
            "mode: ",
            self.mode.as_str(),
            if self.paused {
                "  [PAUSED — revlocal resume]\n\n"
            } else {
                "\n\n"
            },
        );
        if self.repos.is_empty() {
            out.append("no repositories are configured\n  try: revlocal repo add --help\n");
            return out;
        }
        let ghost head = out@;
        let mut i: usize = 0;
        assert(self.repos@.take(0) =~= Seq::empty());
        assert(out@ =~= head + cards_text(self.repos@.take(0)));
        while i < self.repos.len()
            invariant
                i <= self.repos.len(),
                out@ == head + cards_text(self.repos@.take(i as int)),
            decreases self.repos.len() - i,
        {
            assert(self.repos@.take(i + 1).drop_last() =~= self.repos@.take(i as int));
            out.append(write_card(&self.repos[i]).as_str());
            assert(out@ =~= head + cards_text(self.repos@.take(i + 1)));
            i += 1;
        }
        assert(self.repos@.take(self.repos@.len() as int) =~= self.repos@);
        out
    }
}

// --- what holds of every budget line ---

/// A number that is only a lower bound never reads as a total: its line is that of the total with
/// the hedge after it.
pub proof fn a_lower_bound_is_hedged(b: BudgetBar)
    requires
        !b.tokens_known,
    ensures
        budget_line(b) == budget_line(BudgetBar { tokens_known: true, ..b })
            + " (at least — a run today reported no count)"@,
{
    assert(budget_line(BudgetBar { tokens_known: true, ..b })
        + " (at least — a run today reported no count)"@ =~= budget_line(b));
}

/// What is told of the last run is that run.
pub proof fn the_last_run_is_told_as_it_was(last: LastRun, run: Run)
    requires
        last.tells(run),
    ensures
        last.run_id == run.id,
        last.status@ == run.status.word(),
        last.verdict is Some == run.verdict is Some,
        run.verdict matches Some(v) ==> last.verdict->0@ == v.name@,
        last.finished_at is Some == run.finished_at is Some,
        run.finished_at matches Some(at) ==> last.finished_at->0@ == at.rfc3339(),
{
}

/// The mode that is in force on the whole: the one that was stored, where it is one; and otherwise
/// the one that asks before what is risky.
pub proof fn a_stored_mode_is_in_force(stored: Seq<char>)
    ensures
        ceiling(None) == AutonomyMode::AutoLowAskHigh,
        stored == "off"@ ==> ceiling(Some(stored)) == AutonomyMode::Off,
        stored == "dry_run"@ ==> ceiling(Some(stored)) == AutonomyMode::DryRun,
        stored == "auto_low_ask_high"@ ==> ceiling(Some(stored)) == AutonomyMode::AutoLowAskHigh,
        stored == "auto"@ ==> ceiling(Some(stored)) == AutonomyMode::Auto,
        stored != "off"@ && stored != "dry_run"@ && stored != "auto"@ ==> ceiling(Some(stored))
            == AutonomyMode::AutoLowAskHigh,
{
    reveal_strlit("off");
    reveal_strlit("dry_run");
    reveal_strlit("auto_low_ask_high");
    reveal_strlit("auto");
    let all = all_modes();
    let p = crate::repos::written_as::<AutonomyMode>(stored);
    first_index_means(all, p);
    assert("off"@.len() == 3 && "auto"@.len() == 4 && "dry_run"@.len() == 7 && "auto_low_ask_high"@.len() == 17);
    assert(p(all[0]) == (stored == "off"@));
    assert(p(all[1]) == (stored == "dry_run"@));
    assert(p(all[2]) == (stored == "auto_low_ask_high"@));
    assert(p(all[3]) == (stored == "auto"@));
}

/// What is said of a day's spending gives each figure, beside its limit where there is one.
pub proof fn a_budget_gives_its_figures(b: BudgetBar)
    ensures
        b.runs_limit == 0 ==> within(budget_line(b), decimal(b.runs as nat) + " runs"@),
        b.runs_limit > 0 ==> within(
            budget_line(b),
            decimal(b.runs as nat) + " of "@ + decimal(b.runs_limit as nat) + " runs"@,
        ),
        b.tokens_limit == 0 ==> within(budget_line(b), decimal(b.tokens as nat) + " tokens"@),
        b.tokens_limit > 0 ==> within(
            budget_line(b),
            decimal(b.tokens as nat) + " of "@ + decimal(b.tokens_limit as nat) + " tokens"@,
        ),
{
    let runs = if b.runs_limit == 0 {
        decimal(b.runs as nat) + " runs"@
    } else {
        decimal(b.runs as nat) + " of "@ + decimal(b.runs_limit as nat) + " runs"@
    };
    let tokens = if b.tokens_limit == 0 {
        decimal(b.tokens as nat) + " tokens"@
    } else {
        decimal(b.tokens as nat) + " of "@ + decimal(b.tokens_limit as nat) + " tokens"@
    };
    let end = if b.tokens_known {
        Seq::empty()
    } else {
        " (at least — a run today reported no count)"@
    };
    let rest = ", "@ + tokens + end;
    stands_inside("today: "@, runs, rest);
    assert("today: "@ + runs + rest =~= budget_line(b));
    stands_inside("today: "@ + runs + ", "@, tokens, end);
}

/// What a card says before the line on its last run, that line, and what it says after it.
proof fn parts_of_a_card(c: RepoCard) -> (r: (Seq<char>, Seq<char>, Seq<char>, Seq<char>))
    ensures
        card_text(c) == r.0 + r.1 + r.2 + r.3,
        r.0 == c.repo.repo@ + "  ["@ + c.repo.health.health.word() + "]\n"@,
        r.2 == "  queued: "@ + decimal(c.queue_depth as nat) + "\n"@,
        r.3 == "  "@ + budget_line(c.budget) + "\n"@,
        c.last_run matches Some(run) ==> r.1 == "  last run #"@ + decimal_int(run.run_id as int) + " "@ + run.status@
            + match run.verdict {
            Some(v) => " ("@ + v@ + ")"@,
            None => Seq::empty(),
        } + "\n"@,
{
    let last = match c.last_run {
        Some(run) => "  last run #"@ + decimal_int(run.run_id as int) + " "@ + run.status@ + match run.verdict {
            Some(v) => " ("@ + v@ + ")"@,
            None => Seq::empty(),
        } + "\n"@,
        None => "  no runs yet\n"@,
    };
    (
        c.repo.repo@ + "  ["@ + c.repo.health.health.word() + "]\n"@,
        last,
        "  queued: "@ + decimal(c.queue_depth as nat) + "\n"@,
        "  "@ + budget_line(c.budget) + "\n"@,
    )
}

/// A card tells the repository, its health, how many runs wait, and what it spends.
pub proof fn a_card_tells_its_repository(c: RepoCard)
    ensures
        c.repo.repo@.is_prefix_of(card_text(c)),
        within(card_text(c), c.repo.health.health.word()),
        within(card_text(c), "  queued: "@ + decimal(c.queue_depth as nat)),
        within(card_text(c), budget_line(c.budget)),
{
    let r = parts_of_a_card(c);
    let name = c.repo.repo@;
    let health = c.repo.health.health.word();
    first_of_four(r.0, r.1, r.2, r.3, name, "  ["@ + health + "]\n"@);
    assert(r.0 =~= name + ("  ["@ + health + "]\n"@));
    part_of_a_part(Seq::empty(), name + "  ["@, health, "]\n"@, r.1 + r.2 + r.3);
    assert(Seq::<char>::empty() + r.0 + (r.1 + r.2 + r.3) =~= r.0 + r.1 + r.2 + r.3);
    let depth = "  queued: "@ + decimal(c.queue_depth as nat);
    part_of_a_part(r.0 + r.1, Seq::empty(), depth, "\n"@, r.3);
    assert(Seq::<char>::empty() + depth + "\n"@ =~= r.2);
    part_of_a_part(r.0 + r.1 + r.2, "  "@, budget_line(c.budget), "\n"@, Seq::empty());
    assert(r.0 + r.1 + r.2 + r.3 + Seq::<char>::empty() =~= r.0 + r.1 + r.2 + r.3);
}

/// A card tells the last run and what became of it.
pub proof fn a_card_tells_its_last_run(c: RepoCard, run: LastRun)
    requires
        c.last_run == Some(run),
    ensures
        within(card_text(c), "  last run #"@ + decimal_int(run.run_id as int) + " "@ + run.status@),
        run.verdict matches Some(v) ==> within(card_text(c), " ("@ + v@ + ")"@),
{
    let r = parts_of_a_card(c);
    let told = "  last run #"@ + decimal_int(run.run_id as int) + " "@ + run.status@;
    let verdict = match run.verdict {
        Some(v) => " ("@ + v@ + ")"@,
        None => Seq::empty(),
    };
    assert(r.1 == told + verdict + "\n"@);
    part_of_a_part(r.0, Seq::empty(), told, verdict + "\n"@, r.2 + r.3);
    assert(Seq::<char>::empty() + told + (verdict + "\n"@) =~= r.1);
    assert(r.0 + r.1 + (r.2 + r.3) =~= r.0 + r.1 + r.2 + r.3);
    part_of_a_part(r.0, told, verdict, "\n"@, r.2 + r.3);
}

proof fn first_of_four(
    a: Seq<char>,
    b: Seq<char>,
    c: Seq<char>,
    d: Seq<char>,
    first: Seq<char>,
    rest: Seq<char>,
)
    requires
        a =~= first + rest,
    ensures
        first.is_prefix_of(a + b + c + d),
{
    let all = a + b + c + d;
    assert(all.subrange(0, first.len() as int) =~= first);
}

proof fn part_of_a_part(front: Seq<char>, x: Seq<char>, part: Seq<char>, y: Seq<char>, back: Seq<char>)
    ensures
        within(front + (x + part + y) + back, part),
{
    stands_inside(front + x, part, y + back);
    assert(front + x + part + (y + back) =~= front + (x + part + y) + back);
}

/// Every repository has its card, in order.
pub proof fn every_repository_has_its_card(cards: Seq<RepoCard>, i: int)
    requires
        0 <= i < cards.len(),
    ensures
        cards_text(cards) == cards_text(cards.take(i)) + card_text(cards[i]) + cards_text(cards.skip(i + 1)),
    decreases cards.len(),
{
    let before = cards.drop_last();
    if i == cards.len() - 1 {
        assert(cards.take(i) =~= before);
        assert(cards.skip(i + 1) =~= Seq::empty());
        assert(cards_text(cards) =~= cards_text(cards.take(i)) + card_text(cards[i]) + cards_text(cards.skip(i + 1)));
    } else {
        every_repository_has_its_card(before, i);
        assert(before.take(i) =~= cards.take(i));
        assert(cards.skip(i + 1).drop_last() =~= before.skip(i + 1));
        assert(cards.skip(i + 1).last() == cards.last());
        assert(cards_text(cards) =~= cards_text(cards.take(i)) + card_text(cards[i]) + cards_text(cards.skip(i + 1)));
    }
}

} // verus!
