//! One repository in detail.
//!
//! Four triggers, four indicators, each from its own inputs. They fail for unrelated reasons, and a
//! single light would send somebody looking in the wrong place.

use vstd::prelude::*;

use crate::dashboard::{BudgetBar, LastRun};
use crate::model::{Repo, RepoConfig, RepoKind, Run};
use crate::poll::HealthReport;
use crate::text::{
    cat2, cat3, cat5, cat6, copy_texts, count, decimal, decimal_int, join, joined, num, opt_text, signed,
    stands_inside, texts, within,
};
use crate::view::RepoView;

verus! {

/// How many recent runs are listed. Whether there are older ones is said: "the last ten" and "all
/// ten there have ever been" must not look alike.
pub const RECENT_RUNS: u32 = 10;

/// Why a repository could not be shown.
#[derive(Clone, Debug, PartialEq, Eq)]
pub enum RepositoryError {
    /// The database could not be read.
    Store {
        /// Why.
        source: String,
    },
    /// There is no such repository.
    NoSuchRepo {
        /// Which was asked for.
        id: i64,
    },
    /// The submitted settings are not valid.
    InvalidConfig {
        /// What is wrong with them.
        detail: String,
    },
}

impl RepositoryError {
    /// The error in words.
    pub fn describe(&self) -> (r: String)
        ensures
            r@ == match *self {
                Self::Store { source } => "could not read the local database: "@ + source@
                    + "\n  try: revlocal db migrate"@,
                Self::NoSuchRepo { id } => "no repository with id "@ + decimal_int(id as int)
                    + "\n  try: revlocal repo list"@,
                Self::InvalidConfig { detail } => detail@,
            },
    {
        match self {
            Self::Store { source } => cat3(
                "could not read the local database: ",
                source.as_str(),
                "\n  try: revlocal db migrate",
            ),
            Self::NoSuchRepo { id } => cat3(
                "no repository with id ",
                signed(*id).as_str(),
                "\n  try: revlocal repo list",
            ),
            Self::InvalidConfig { detail } => detail.clone(),
        }
    }
}

/// That submitted settings cannot be read, and where: the position is the half of an error that
/// makes it fixable.
pub fn unreadable_config(line: usize, column: usize, error: &str) -> (r: RepositoryError)
    ensures
        r is InvalidConfig,
        r->detail@ == "line "@ + decimal(line as nat) + ", column "@ + decimal(column as nat) + ": "@
            + error@,
{
    RepositoryError::InvalidConfig {
        detail: cat6(
            "line ",
            count(line).as_str(),
            ", column ",
            count(column).as_str(),
            ": ",
            error,
        ),
    }
}

/// Where a trigger stands. Off and broken want opposite responses.
#[derive(Clone, Copy, Debug, PartialEq, Eq, Structural)]
pub enum TriggerState {
    /// Working.
    Active,
    /// Deliberately off.
    Off,
    /// On, and unable to work.
    Broken,
    /// Cannot apply to this kind of repository at all.
    NotApplicable,
}

/// A trigger, where it stands, and why.
#[derive(Clone, Debug, PartialEq, Eq)]
pub struct TriggerStatus {
    /// `poll`, `hooks`, `webhook` or `manual`.
    pub trigger: String,
    /// Where it stands.
    pub state: TriggerState,
    /// One line saying why. An indicator without one is a light somebody has to guess at.
    pub detail: String,
}

/// What an indicator says.
pub struct Indicator {
    /// Which trigger.
    pub trigger: Seq<char>,
    /// Where it stands.
    pub state: TriggerState,
    /// Why.
    pub detail: Seq<char>,
}

impl View for TriggerStatus {
    type V = Indicator;

    open spec fn view(&self) -> Indicator {
        Indicator { trigger: self.trigger@, state: self.state, detail: self.detail@ }
    }
}

/// What indicators say.
pub open spec fn indicators(v: Seq<TriggerStatus>) -> Seq<Indicator> {
    v.map_values(|t: TriggerStatus| t@)
}

fn status_of(trigger: &str, state: TriggerState, detail: &str) -> (r: TriggerStatus)
    ensures
        r@ == (Indicator { trigger: trigger@, state, detail: detail@ }),
{
    TriggerStatus { trigger: trigger.to_owned(), state, detail: detail.to_owned() }
}

/// What the poller is doing.
pub open spec fn poll_indicator(enabled: bool, health: HealthReport) -> Indicator {
    if !enabled {
        Indicator {
            trigger: "poll"@,
            state: TriggerState::Off,
            detail: "the repository is disabled, so nothing polls it"@,
        }
    } else if health.consecutive_failures > 0 {
        Indicator {
            trigger: "poll"@,
            state: TriggerState::Broken,
            detail: match health.last_error {
                None => decimal(health.consecutive_failures as nat) + " polls have failed in a row"@,
                Some(error) => decimal(health.consecutive_failures as nat) + " failed in a row; last: "@
                    + error@,
            },
        }
    } else {
        Indicator {
            trigger: "poll"@,
            state: TriggerState::Active,
            detail: "every "@ + decimal(health.poll_interval_secs as nat) + "s; next in about "@ + decimal(
                health.next_poll_in_secs as nat,
            ) + "s"@,
        }
    }
}

fn poll_status(enabled: bool, health: &HealthReport) -> (r: TriggerStatus)
    ensures
        r@ == poll_indicator(enabled, *health),
{
    if !enabled {
        return status_of(
            "poll",
            TriggerState::Off,
            "the repository is disabled, so nothing polls it",
        );
    }
    if health.consecutive_failures > 0 {
        let failures = num(health.consecutive_failures as u64);
        let detail = match &health.last_error {
            None => cat2(failures.as_str(), " polls have failed in a row"),
            Some(error) => cat3(failures.as_str(), " failed in a row; last: ", error.as_str()),
        };
        return status_of("poll", TriggerState::Broken, detail.as_str());
    }
    status_of(
        "poll",
        TriggerState::Active,
        cat5(
            "every ",
            num(health.poll_interval_secs).as_str(),
            "s; next in about ",
            num(health.next_poll_in_secs).as_str(),
            "s",
        ).as_str(),
    )
}

/// What a git checkout's hooks are doing, given which are installed there. They are named, not
/// counted: a list can be checked against the repository.
pub open spec fn git_hooks_indicator(local_path: Option<String>, installed: Result<Vec<String>, String>) -> Indicator {
    if local_path is None {
        Indicator {
            trigger: "hooks"@,
            state: TriggerState::Off,
            detail: "this repository has no local path, so there is nowhere to install a hook"@,
        }
    } else {
        match installed {
            Err(error) => Indicator {
                trigger: "hooks"@,
                state: TriggerState::Broken,
                detail: "could not read the hooks directory: "@ + error@,
            },
            Ok(names) => if names@.len() == 0 {
                Indicator {
                    trigger: "hooks"@,
                    state: TriggerState::Off,
                    detail: "no rev-local hook is installed; try: revlocal hooks install"@,
                }
            } else {
                Indicator {
                    trigger: "hooks"@,
                    state: TriggerState::Active,
                    detail: "installed: "@ + joined(texts(names@), ", "@),
                }
            },
        }
    }
}

/// What a git checkout's hooks are doing.
pub fn hook_status(local_path: &Option<String>, installed: &Result<Vec<String>, String>) -> (r: TriggerStatus)
    ensures
        r@ == git_hooks_indicator(*local_path, *installed),
{
    if local_path.is_none() {
        return status_of(
            "hooks",
            TriggerState::Off,
            "this repository has no local path, so there is nowhere to install a hook",
        );
    }
    match installed {
        Err(error) => status_of(
            "hooks",
            TriggerState::Broken,
            cat2("could not read the hooks directory: ", error.as_str()).as_str(),
        ),
        Ok(names) => {
            if names.is_empty() {
                status_of(
                    "hooks",
                    TriggerState::Off,
                    "no rev-local hook is installed; try: revlocal hooks install",
                )
            } else {
                status_of(
                    "hooks",
                    TriggerState::Active,
                    cat2("installed: ", join(names, ", ").as_str()).as_str(),
                )
            }
        },
    }
}

/// What a repository's hooks are doing. Those of Subversion run on the server, and a repository on
/// GitHub may have no clone here at all: advice to install one could not be followed.
pub open spec fn hooks_indicator(repo: Repo, installed: Result<Vec<String>, String>) -> Indicator {
    match repo.kind {
        RepoKind::Svn => Indicator {
            trigger: "hooks"@,
            state: TriggerState::NotApplicable,
            detail: "SVN hooks run on the server; rev-local polls instead (§6.4)"@,
        },
        RepoKind::GitHub => Indicator {
            trigger: "hooks"@,
            state: TriggerState::NotApplicable,
            detail: "a GitHub repository is watched through the API; local hooks do not apply"@,
        },
        RepoKind::Git => git_hooks_indicator(repo.local_path, installed),
    }
}

/// What a webhook is doing. One that is enabled and cannot work is broken and not off: somebody
/// turned it on, and is entitled to think that it works.
pub open spec fn delivery_indicator(config: RepoConfig, listener_port: u16) -> Indicator {
    if !config.webhook_enabled {
        Indicator {
            trigger: "webhook"@,
            state: TriggerState::Off,
            detail: "not enabled for this repository (§13.2 webhook_enabled)"@,
        }
    } else if listener_port == 0 {
        Indicator {
            trigger: "webhook"@,
            state: TriggerState::Broken,
            detail: "enabled here, but no listener is running (§13.1 webhook_port = 0)"@,
        }
    } else if config.webhook_secret_ref is None {
        Indicator {
            trigger: "webhook"@,
            state: TriggerState::Broken,
            detail: "enabled with no secret; every delivery will be rejected unsigned"@,
        }
    } else {
        Indicator {
            trigger: "webhook"@,
            state: TriggerState::Active,
            detail: "listening on port "@ + decimal(listener_port as nat),
        }
    }
}

/// What a webhook is doing.
pub fn webhook_status(config: &RepoConfig, listener_port: u16) -> (r: TriggerStatus)
    ensures
        r@ == delivery_indicator(*config, listener_port),
{
    if !config.webhook_enabled {
        return status_of(
            "webhook",
            TriggerState::Off,
            "not enabled for this repository (§13.2 webhook_enabled)",
        );
    }
    if listener_port == 0 {
        return status_of(
            "webhook",
            TriggerState::Broken,
            "enabled here, but no listener is running (§13.1 webhook_port = 0)",
        );
    }
    if config.webhook_secret_ref.is_none() {
        return status_of(
            "webhook",
            TriggerState::Broken,
            "enabled with no secret; every delivery will be rejected unsigned",
        );
    }
    status_of(
        "webhook",
        TriggerState::Active,
        cat2("listening on port ", num(listener_port as u64).as_str()).as_str(),
    )
}

/// What a repository's webhook is doing.
pub open spec fn webhook_indicator(repo: Repo, config: RepoConfig, listener_port: u16) -> Indicator {
    match repo.kind {
        RepoKind::Svn => Indicator {
            trigger: "webhook"@,
            state: TriggerState::NotApplicable,
            detail: "webhooks are a GitHub delivery; an SVN repository has none"@,
        },
        _ => delivery_indicator(config, listener_port),
    }
}

/// That a review can always be asked for: when the others are off, this is the answer to whether
/// anything can be reviewed at all.
pub open spec fn manual_indicator(name: Seq<char>) -> Indicator {
    Indicator {
        trigger: "manual"@,
        state: TriggerState::Active,
        detail: "always available: revlocal review --repo "@ + name,
    }
}

/// The four indicators.
pub fn triggers(
    repo: &Repo,
    config: &RepoConfig,
    health: &HealthReport,
    installed: &Result<Vec<String>, String>,
    listener_port: u16,
) -> (r: Vec<TriggerStatus>)
    ensures
        indicators(r@) == seq![
            poll_indicator(repo.enabled, *health),
            hooks_indicator(*repo, *installed),
            webhook_indicator(*repo, *config, listener_port),
            manual_indicator(repo.name@),
        ],
{
    let hooks = match repo.kind {
        RepoKind::Svn => status_of(
            "hooks",
            TriggerState::NotApplicable,
            "SVN hooks run on the server; rev-local polls instead (§6.4)",
        ),
        RepoKind::GitHub => status_of(
            "hooks",
            TriggerState::NotApplicable,
            "a GitHub repository is watched through the API; local hooks do not apply",
        ),
        RepoKind::Git => hook_status(&repo.local_path, installed),
    };
    let webhook = match repo.kind {
        RepoKind::Svn => status_of(
            "webhook",
            TriggerState::NotApplicable,
            "webhooks are a GitHub delivery; an SVN repository has none",
        ),
        _ => webhook_status(config, listener_port),
    };
    let mut r: Vec<TriggerStatus> = Vec::new();
    r.push(poll_status(repo.enabled, health));
    r.push(hooks);
    r.push(webhook);
    r.push(
        status_of(
            "manual",
            TriggerState::Active,
            cat2("always available: revlocal review --repo ", repo.name.as_str()).as_str(),
        ),
    );
    assert(indicators(r@) =~= seq![
        poll_indicator(repo.enabled, *health),
        hooks_indicator(*repo, *installed),
        webhook_indicator(*repo, *config, listener_port),
        manual_indicator(repo.name@),
    ]);
    r
}

/// What a repository is watching: branches or paths, never both.
#[derive(Clone, Debug, PartialEq, Eq)]
pub enum Watching {
    /// Git: patterns of branches.
    Branches {
        /// The patterns, as configured.
        globs: Vec<String>,
    },
    /// Subversion: paths.
    Paths {
        /// The paths, the trunk first.
        paths: Vec<String>,
    },
}

/// Whether this is what a repository watches. A branch of Subversion is a directory, and calling
/// it a branch is where the confusion starts.
pub open spec fn watches(w: Watching, kind: RepoKind, config: RepoConfig) -> bool {
    match w {
        Watching::Branches { globs } => kind != RepoKind::Svn && texts(globs@) == texts(config.branches@),
        Watching::Paths { paths } => kind == RepoKind::Svn && texts(paths@) == if config.watch_branches {
            seq!["trunk"@, "branches/*"@]
        } else {
            seq!["trunk"@]
        },
    }
}

/// What a repository is watching, in its own words.
pub fn watching(repo: &Repo, config: &RepoConfig) -> (r: Watching)
    ensures
        watches(r, repo.kind, *config),
{
    match repo.kind {
        RepoKind::Svn => {
            let mut paths: Vec<String> = Vec::new();
            paths.push("trunk".to_owned());
            if config.watch_branches {
                paths.push("branches/*".to_owned());
            }
            assert(texts(paths@) =~= if config.watch_branches {
                seq!["trunk"@, "branches/*"@]
            } else {
                seq!["trunk"@]
            });
            Watching::Paths { paths }
        },
        _ => Watching::Branches { globs: copy_texts(&config.branches) },
    }
}

/// One line of the recent runs.
#[derive(Clone, Debug, PartialEq, Eq)]
pub struct RunLine {
    /// The run.
    pub run_id: i64,
    /// Where it got to.
    pub status: String,
    /// What it concluded, when it concluded anything.
    pub verdict: Option<String>,
    /// What started it.
    pub trigger: String,
    /// When it started.
    pub started_at: Option<String>,
}

impl RunLine {
    /// Whether this tells of a run.
    pub open spec fn tells(self, run: Run) -> bool {
        &&& self.run_id == run.id
        &&& self.status@ == run.status.word()
        &&& opt_text(self.verdict) == match run.verdict {
            Some(v) => Some(v.word()),
            None => None,
        }
        &&& self.trigger@ == run.trigger.word()
        &&& opt_text(self.started_at) == match run.started_at {
            Some(at) => Some(at.rfc3339()),
            None => None,
        }
    }

    /// The line of a run.
    pub fn of(run: &Run) -> (r: RunLine)
        requires
            run.started_at matches Some(at) ==> at.in_calendar(),
        ensures
            r.tells(*run),
    {
        RunLine {
            run_id: run.id,
            status: run.status.as_str().to_owned(),
            verdict: match run.verdict {
                Some(v) => Some(v.as_str().to_owned()),
                None => None,
            },
            trigger: run.trigger.as_str().to_owned(),
            started_at: match run.started_at {
                Some(at) => Some(at.to_rfc3339()),
                None => None,
            },
        }
    }
}

/// One repository in detail.
#[derive(Clone, Debug, PartialEq, Eq)]
pub struct RepositoryView {
    /// The repository.
    pub repo: RepoView,
    /// Branches or paths.
    pub watching: Watching,
    /// The four indicators.
    pub triggers: Vec<TriggerStatus>,
    /// The most recent runs, newest first.
    pub recent_runs: Vec<RunLine>,
    /// Whether there are older ones.
    pub more_runs: bool,
    /// Today's spend.
    pub budget: BudgetBar,
    /// The repository's settings as a document, to be edited: the document itself, and no form
    /// that would leave out a field.
    pub config_json: String,
    /// The last run.
    pub last_run: Option<LastRun>,
}

/// How many of so many runs are listed.
pub open spec fn listed(runs: nat) -> nat {
    if runs > RECENT_RUNS {
        RECENT_RUNS as nat
    } else {
        runs
    }
}

/// Put a repository's detail together, given its runs, newest first and one more than are listed,
/// and its settings laid out for editing where they can be read. Where they cannot, what is stored
/// is shown: somebody has to see what is wrong with it to mend it.
pub fn gather(
    view: RepoView,
    repo: &Repo,
    config: &RepoConfig,
    installed: &Result<Vec<String>, String>,
    listener_port: u16,
    runs: &Vec<Run>,
    budget: BudgetBar,
    pretty: Option<&str>,
) -> (r: RepositoryView)
    requires
        forall|i: int|
            0 <= i < runs@.len() ==> ((#[trigger] runs@[i]).started_at matches Some(at) ==> at.in_calendar()),
        runs@.len() > 0 ==> (runs@[0].finished_at matches Some(at) ==> at.in_calendar()),
    ensures
        r.repo == view,
        watches(r.watching, repo.kind, *config),
        indicators(r.triggers@) == seq![
            poll_indicator(repo.enabled, view.health),
            hooks_indicator(*repo, *installed),
            webhook_indicator(*repo, *config, listener_port),
            manual_indicator(repo.name@),
        ],
        r.recent_runs@.len() == listed(runs@.len()),
        forall|i: int| 0 <= i < r.recent_runs@.len() ==> (#[trigger] r.recent_runs@[i]).tells(runs@[i]),
        r.more_runs == (runs@.len() > RECENT_RUNS),
        r.budget == budget,
        r.config_json@ == match pretty {
            Some(p) => p@,
            None => repo.config_json@,
        },
        match r.last_run {
            Some(last) => runs@.len() > 0 && last.tells(runs@[0]),
            None => runs@.len() == 0,
        },
{
    let limit: usize = if runs.len() > RECENT_RUNS as usize {
        RECENT_RUNS as usize
    } else {
        runs.len()
    };
    let mut recent_runs: Vec<RunLine> = Vec::new();
    let mut i: usize = 0;
    while i < limit
        invariant
            i <= limit <= runs@.len(),
            forall|k: int|
                0 <= k < runs@.len() ==> ((#[trigger] runs@[k]).started_at matches Some(at)
                    ==> at.in_calendar()),
            recent_runs@.len() == i,
            forall|j: int| 0 <= j < i ==> (#[trigger] recent_runs@[j]).tells(runs@[j]),
        decreases limit - i,
    {
        recent_runs.push(RunLine::of(&runs[i]));
        i += 1;
    }
    let last_run: Option<LastRun> = if runs.len() > 0 {
        Some(LastRun::of(&runs[0]))
    } else {
        None
    };
    let lights = triggers(repo, config, &view.health, installed, listener_port);
    RepositoryView {
        repo: view,
        watching: watching(repo, config),
        triggers: lights,
        recent_runs,
        more_runs: runs.len() > RECENT_RUNS as usize,
        budget,
        config_json: match pretty {
            Some(text) => text.to_owned(),
            None => repo.config_json.clone(),
        },
        last_run,
    }
}

// --- what holds of the indicators ---

/// The indicators are independent: each follows from its own inputs alone. What polling does makes
/// no difference to the others, and neither does the webhook's setting or what is installed.
pub proof fn the_indicators_are_independent(
    repo: Repo,
    one: HealthReport,
    other: HealthReport,
    config: RepoConfig,
    changed: RepoConfig,
    installed: Result<Vec<String>, String>,
    port: u16,
)
    ensures
        poll_indicator(false, one) == poll_indicator(false, other),
        hooks_indicator(repo, installed) == hooks_indicator(Repo { enabled: !repo.enabled, ..repo }, installed),
        webhook_indicator(repo, config, port) == webhook_indicator(
            Repo { enabled: !repo.enabled, ..repo },
            config,
            port,
        ),
        config.webhook_enabled == changed.webhook_enabled && config.webhook_secret_ref
            == changed.webhook_secret_ref ==> webhook_indicator(repo, config, port) == webhook_indicator(
            repo,
            changed,
            port,
        ),
        manual_indicator(repo.name@).state == TriggerState::Active,
{
}

/// A webhook that is enabled is never shown as off: it works, or it is broken, or the kind of
/// repository has none.
pub proof fn an_enabled_webhook_is_never_off(repo: Repo, config: RepoConfig, port: u16)
    requires
        config.webhook_enabled,
    ensures
        webhook_indicator(repo, config, port).state != TriggerState::Off,
{
}

/// What each light shows. Polling is off while the repository is disabled, broken while it fails,
/// and on otherwise.
pub proof fn when_polling_works(enabled: bool, health: HealthReport)
    ensures
        ({
            let light = poll_indicator(enabled, health);
            &&& light.trigger == "poll"@
            &&& light.state == if !enabled {
                TriggerState::Off
            } else if health.consecutive_failures > 0 {
                TriggerState::Broken
            } else {
                TriggerState::Active
            }
            &&& enabled && health.consecutive_failures > 0 ==> decimal(
                health.consecutive_failures as nat,
            ).is_prefix_of(light.detail)
            &&& enabled && health.consecutive_failures > 0 && health.last_error is Some
                ==> health.last_error->0@.is_suffix_of(light.detail)
            &&& enabled && health.consecutive_failures == 0 ==> within(
                light.detail,
                decimal(health.poll_interval_secs as nat),
            )
        }),
{
    let light = poll_indicator(enabled, health);
    let n = decimal(health.consecutive_failures as nat);
    if enabled && health.consecutive_failures > 0 {
        assert(light.detail.subrange(0, n.len() as int) =~= n);
        if let Some(error) = health.last_error {
            let all = light.detail;
            assert(all.subrange(all.len() - error@.len(), all.len() as int) =~= error@);
        }
    } else if enabled {
        let rest = "s; next in about "@ + decimal(health.next_poll_in_secs as nat) + "s"@;
        stands_inside("every "@, decimal(health.poll_interval_secs as nat), rest);
        assert("every "@ + decimal(health.poll_interval_secs as nat) + rest =~= light.detail);
    }
}

/// Hooks are for a git checkout: they are off where there is nowhere to put one or none is there,
/// broken where that cannot be told, and on, by name, where there are some.
pub proof fn when_hooks_work(repo: Repo, installed: Result<Vec<String>, String>)
    ensures
        ({
            let light = hooks_indicator(repo, installed);
            &&& light.trigger == "hooks"@
            &&& light.state == if repo.kind != RepoKind::Git {
                TriggerState::NotApplicable
            } else if repo.local_path is None {
                TriggerState::Off
            } else if installed is Err {
                TriggerState::Broken
            } else if (installed->Ok_0)@.len() == 0 {
                TriggerState::Off
            } else {
                TriggerState::Active
            }
            &&& light.state == TriggerState::Active ==> joined(texts((installed->Ok_0)@), ", "@).is_suffix_of(
                light.detail,
            )
            &&& light.state == TriggerState::Broken ==> (installed->Err_0)@.is_suffix_of(light.detail)
        }),
{
    let light = hooks_indicator(repo, installed);
    let all = light.detail;
    if light.state == TriggerState::Active {
        let names = joined(texts((installed->Ok_0)@), ", "@);
        assert(all.subrange(all.len() - names.len(), all.len() as int) =~= names);
    } else if light.state == TriggerState::Broken {
        let error = (installed->Err_0)@;
        assert(all.subrange(all.len() - error.len(), all.len() as int) =~= error);
    }
}

/// Webhooks are off where they are not enabled, broken where nothing listens or nothing is signed,
/// and on otherwise; a Subversion repository has none.
pub proof fn when_webhooks_work(repo: Repo, config: RepoConfig, port: u16)
    ensures
        ({
            let light = webhook_indicator(repo, config, port);
            &&& light.trigger == "webhook"@
            &&& light.state == if repo.kind == RepoKind::Svn {
                TriggerState::NotApplicable
            } else if !config.webhook_enabled {
                TriggerState::Off
            } else if port == 0 || config.webhook_secret_ref is None {
                TriggerState::Broken
            } else {
                TriggerState::Active
            }
            &&& light.state == TriggerState::Active ==> decimal(port as nat).is_suffix_of(light.detail)
        }),
        manual_indicator(repo.name@).state == TriggerState::Active,
        repo.name@.is_suffix_of(manual_indicator(repo.name@).detail),
{
    let light = webhook_indicator(repo, config, port);
    let all = light.detail;
    let n = decimal(port as nat);
    if light.state == TriggerState::Active {
        assert(all.subrange(all.len() - n.len(), all.len() as int) =~= n);
    }
    let by_hand = manual_indicator(repo.name@).detail;
    assert(by_hand.subrange(by_hand.len() - repo.name@.len(), by_hand.len() as int) =~= repo.name@);
}

/// What is watched: a Subversion repository's trunk, and its branches where they are asked for; and
/// of any other the branches that its settings name.
pub proof fn what_is_watched(w: Watching, kind: RepoKind, config: RepoConfig)
    requires
        watches(w, kind, config),
    ensures
        w is Paths == (kind == RepoKind::Svn),
        w matches Watching::Branches { globs } ==> texts(globs@) == texts(config.branches@),
        w matches Watching::Paths { paths } ==> paths@.len() == (if config.watch_branches {
            2int
        } else {
            1
        }) && paths@[0]@ == "trunk"@ && (config.watch_branches ==> paths@[1]@ == "branches/*"@),
{
    if let Watching::Paths { paths } = w {
        assert(texts(paths@).len() == paths@.len());
        assert(texts(paths@)[0] == paths@[0]@);
        if config.watch_branches {
            assert(texts(paths@)[1] == paths@[1]@);
        }
    }
}

/// A line tells its run, and no more than ten are listed.
pub proof fn a_line_tells_its_run(line: RunLine, run: Run, runs: nat)
    requires
        line.tells(run),
    ensures
        line.run_id == run.id,
        line.status@ == run.status.word(),
        line.trigger@ == run.trigger.word(),
        line.verdict is Some == run.verdict is Some,
        run.verdict matches Some(v) ==> line.verdict->0@ == v.name@,
        line.started_at is Some == run.started_at is Some,
        run.started_at matches Some(at) ==> line.started_at->0@ == at.rfc3339(),
        listed(runs) == if runs < 10 {
            runs
        } else {
            10
        },
{
}

} // verus!
