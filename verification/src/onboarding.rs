//! Setting up for the first time.
//!
//! # The default is never to publish unattended
//!
//! A repository added a moment ago has never been reviewed, and nobody has seen a finding from
//! it. A default is a decision that somebody did not make, so [`Draft`] starts at a dry run.
//!
//! # Where it stops
//!
//! At a review whose result is on the screen, not at a repository that is configured: somebody who
//! has seen nothing does not yet know whether any of it works.

use vstd::prelude::*;

use crate::doctor::DoctorReport;
use crate::executor::RunOutcome;
use crate::model::{AutonomyMode, EngineKind, RepoKind};
use crate::repos::AddPlan;
use crate::text::{
    blank, cat2, cat3, is_blank, is_space, opt_text, same, stands_inside, texts, trim, trimmed,
    trimming_takes_off_blanks, within,
};

verus! {

/// The steps, in order.
#[derive(Clone, Copy, Debug, PartialEq, Eq, Structural)]
pub enum Step {
    /// What is installed, and what is not.
    Check,
    /// Which repository to watch.
    AddRepo,
    /// Which engine reviews it.
    PickEngine,
    /// How much it may do unattended.
    PickAutonomy,
    /// One review, and its result on the screen.
    FirstReview,
}

impl Step {
    /// Every step, in order.
    pub const ALL: [Step; 5] = [
        Step::Check,
        Step::AddRepo,
        Step::PickEngine,
        Step::PickAutonomy,
        Step::FirstReview,
    ];

    /// The heading of this step.
    pub fn title(self) -> (r: &'static str)
        ensures
            r@ == match self {
                Self::Check => "Check what is installed"@,
                Self::AddRepo => "Choose a repository"@,
                Self::PickEngine => "Choose an engine"@,
                Self::PickAutonomy => "Choose how much it may do"@,
                Self::FirstReview => "Review one change"@,
            },
    {
        match self {
            Self::Check => "Check what is installed",
            Self::AddRepo => "Choose a repository",
            Self::PickEngine => "Choose an engine",
            Self::PickAutonomy => "Choose how much it may do",
            Self::FirstReview => "Review one change",
        }
    }

    /// The step after this one.
    pub open spec fn after(self) -> Option<Step> {
        match self {
            Self::Check => Some(Self::AddRepo),
            Self::AddRepo => Some(Self::PickEngine),
            Self::PickEngine => Some(Self::PickAutonomy),
            Self::PickAutonomy => Some(Self::FirstReview),
            Self::FirstReview => None,
        }
    }

    /// The step after this one, or nothing at the end.
    pub fn next(self) -> (r: Option<Step>)
        ensures
            r == self.after(),
    {
        match self {
            Self::Check => Some(Self::AddRepo),
            Self::AddRepo => Some(Self::PickEngine),
            Self::PickEngine => Some(Self::PickAutonomy),
            Self::PickAutonomy => Some(Self::FirstReview),
            Self::FirstReview => None,
        }
    }
}

/// What is being set up. A draft and no half-written repository: somebody who stops halfway should
/// not find one they did not finish adding.
#[derive(Clone, Debug, PartialEq, Eq)]
pub struct Draft {
    /// The path or URL being added.
    pub path: String,
    /// What to call it; made from the path when empty.
    pub name: String,
    /// What kind it is.
    pub kind: RepoKind,
    /// Which engine.
    pub engine: EngineKind,
    /// How much it may do unattended.
    pub autonomy: AutonomyMode,
}

impl Default for Draft {
    /// The safe start: nothing is published until somebody has seen what comes out, and nothing is
    /// spent before anybody has decided to.
    fn default() -> (r: Draft)
        ensures
            r.path@ == ""@,
            r.name@ == ""@,
            r.kind == RepoKind::Git,
            r.engine.mocks(),
            r.autonomy == AutonomyMode::DryRun,
            r.is_safe(),
    {
        Draft {
            path: "".to_owned(),
            name: "".to_owned(),
            kind: RepoKind::Git,
            engine: EngineKind::mock(),
            autonomy: AutonomyMode::DryRun,
        }
    }
}

impl Draft {
    /// Whether nothing is published without anybody having seen a finding.
    pub open spec fn is_safe(self) -> bool {
        self.autonomy != AutonomyMode::Auto
    }

    /// Whether nothing is published without anybody having seen a finding.
    pub fn is_safe_default(&self) -> (r: bool)
        ensures
            r == self.is_safe(),
    {
        !matches!(self.autonomy, AutonomyMode::Auto)
    }

    /// What is missing before a step can be completed.
    pub fn blocker(&self, step: Step) -> (r: Option<String>)
        ensures
            opt_text(r) == if step == Step::AddRepo && is_blank(self.path@) {
                Some("choose a repository directory or URL"@)
            } else {
                None
            },
    {
        if step == Step::AddRepo && blank(self.path.as_str()) {
            Some("choose a repository directory or URL".to_owned())
        } else {
            None
        }
    }
}

/// Why it could not go on.
#[derive(Clone, Debug, PartialEq, Eq)]
pub enum OnboardingError {
    /// The repository could not be added.
    AddRepo {
        /// What went wrong.
        detail: String,
    },
    /// The first review could not run.
    Review {
        /// What went wrong.
        detail: String,
    },
}

impl OnboardingError {
    /// The error in words.
    pub fn describe(&self) -> (r: String)
        ensures
            r@ == match *self {
                Self::AddRepo { detail } => detail@,
                Self::Review { detail } => detail@,
            },
    {
        match self {
            Self::AddRepo { detail } => detail.clone(),
            Self::Review { detail } => detail.clone(),
        }
    }
}

/// What the first review produced.
#[derive(Clone, Debug, PartialEq, Eq)]
pub struct FirstReview {
    /// The run.
    pub run_id: i64,
    /// Which repository.
    pub repo: String,
    /// Where it got to.
    pub status: String,
    /// What it concluded.
    pub verdict: Option<String>,
    /// How many findings it recorded.
    pub findings: usize,
    /// Which engine ran.
    pub engine: String,
    /// Said out loud when it was the mock: a rehearsal that reads like a real review is the worst
    /// first impression.
    pub caveat: Option<String>,
}

/// Where setting up stands.
#[derive(Clone, Debug, PartialEq, Eq)]
pub struct Onboarding {
    /// Which step is showing.
    pub step: Step,
    /// What is being set up.
    pub draft: Draft,
    /// What is installed, once that was looked at.
    pub doctor: Option<DoctorReport>,
    /// The first review, once it has run.
    pub review: Option<FirstReview>,
    /// Whether this is a fresh install.
    pub first_run: bool,
}

impl Onboarding {
    /// Start at the beginning.
    pub fn start(first_run: bool) -> (r: Onboarding)
        ensures
            r.step == Step::Check,
            r.draft.path@ == ""@,
            r.draft.name@ == ""@,
            r.draft.kind == RepoKind::Git,
            r.draft.engine.mocks(),
            r.draft.autonomy == AutonomyMode::DryRun,
            r.doctor is None,
            r.review is None,
            r.first_run == first_run,
    {
        Onboarding { step: Step::Check, draft: Draft::default(), doctor: None, review: None, first_run }
    }
}

/// Whether this install has never been set up: it has no repositories. A stored flag could be set
/// on a machine with nothing configured.
pub fn is_first_run(repos: usize) -> (r: bool)
    ensures
        r == (repos == 0),
{
    repos == 0
}

/// What a draft is called, when it has a name.
pub open spec fn draft_name(name: Seq<char>) -> Option<Seq<char>> {
    if is_blank(name) {
        None
    } else {
        Some(trimmed(name))
    }
}

/// Plan to add the repository of a draft, by the one way in which repositories are added. A mode
/// that publishes unattended is not refused: the promise is about the default.
pub fn add_repo(draft: &Draft, engines: &Vec<EngineKind>, existing: &Vec<String>) -> (r: Result<
    AddPlan,
    OnboardingError,
>)
    ensures
        ({
            let checked = crate::repos::checked_add(
                trimmed(draft.path@),
                draft.kind.word(),
                draft_name(draft.name@),
                draft.engine.word(),
                Some(draft.autonomy.word()),
                draft.autonomy,
                engines@,
                texts(existing@),
            );
            match r {
                Ok(plan) => plan.path_or_url@ == trimmed(draft.path@) && checked == Ok::<
                    _,
                    crate::repos::Refusal,
                >((plan.name@, plan.kind, plan.engine, plan.autonomy)),
                Err(e) => checked is Err && e is AddRepo && e->AddRepo_detail@ == crate::repos::in_words(
                    checked->Err_0,
                ),
            }
        }),
{
    let name = trim(draft.name.as_str());
    let given: Option<&str> = if blank(draft.name.as_str()) {
        None
    } else {
        Some(name.as_str())
    };
    match crate::repos::add(
        trim(draft.path.as_str()).as_str(),
        draft.kind.as_str(),
        given,
        draft.engine.as_str(),
        Some(draft.autonomy.as_str()),
        draft.autonomy,
        engines,
        existing,
    ) {
        Ok(plan) => Ok(plan),
        Err(error) => Err(OnboardingError::AddRepo { detail: error.describe() }),
    }
}

/// What the first review came to, of what a pass finished and held.
pub open spec fn why_no_review(held: Seq<Seq<char>>) -> Seq<char> {
    if held.len() > 0 {
        held[0]
    } else {
        "there is nothing to review yet — rev-local has not discovered a change in this repository. Make a commit, or run `revlocal watch --once`."@
    }
}

/// Whether a review tells of an outcome, with a word of warning where the mock made it up.
pub open spec fn tells(review: FirstReview, outcome: RunOutcome, engines: Seq<char>) -> bool {
    &&& review.run_id == outcome.run_id
    &&& review.repo@ == outcome.repo@
    &&& review.status@ == outcome.status@
    &&& opt_text(review.verdict) == opt_text(outcome.verdict)
    &&& review.findings == outcome.findings
    &&& review.engine@ == outcome.engine@
    &&& opt_text(review.caveat) == if outcome.engine@ == "mock"@ {
        Some(
            "This was the mock engine: it spends nothing and invents its findings. Choose "@ + engines
                + " in Settings for a real review."@,
        )
    } else {
        None
    }
}

/// What the first review came to, of what a pass finished and held; `engines` names the real ones,
/// in words.
pub fn first_review(finished: &Vec<RunOutcome>, held: &Vec<String>, engines: &str) -> (r: Result<
    FirstReview,
    OnboardingError,
>)
    ensures
        match r {
            Ok(review) => finished@.len() > 0 && tells(review, finished@[0], engines@),
            Err(e) => finished@.len() == 0 && e is Review && e->Review_detail@ == why_no_review(
                texts(held@),
            ),
        },
{
    if finished.len() == 0 {
        let detail = if held.len() > 0 {
            held[0].clone()
        } else {
            "there is nothing to review yet — rev-local has not discovered a change in this repository. Make a commit, or run `revlocal watch --once`.".to_owned()
        };
        return Err(OnboardingError::Review { detail });
    }
    let outcome = &finished[0];
    let caveat: Option<String> = if same(outcome.engine.as_str(), "mock") {
        Some(
            cat3(
                "This was the mock engine: it spends nothing and invents its findings. Choose ",
                engines,
                " in Settings for a real review.",
            ),
        )
    } else {
        None
    };
    Ok(
        FirstReview {
            run_id: outcome.run_id,
            repo: outcome.repo.clone(),
            status: outcome.status.clone(),
            verdict: outcome.verdict.clone(),
            findings: outcome.findings,
            engine: outcome.engine.clone(),
            caveat,
        },
    )
}

/// The repository that a first review is asked for is not there.
pub fn no_such_repo(name: &str) -> (r: OnboardingError)
    ensures
        r is Review,
        r->Review_detail@ == "no repository called "@ + name@,
{
    OnboardingError::Review { detail: cat2("no repository called ", name) }
}

/// What the first review is told as is that review; that it was a rehearsal is said where it was one,
/// and only there.
pub proof fn the_first_review_is_told_as_it_was(review: FirstReview, outcome: RunOutcome, engines: Seq<char>)
    requires
        tells(review, outcome, engines),
    ensures
        review.run_id == outcome.run_id,
        review.repo@ == outcome.repo@,
        review.status@ == outcome.status@,
        opt_text(review.verdict) == opt_text(outcome.verdict),
        review.findings == outcome.findings,
        review.engine@ == outcome.engine@,
        review.caveat is Some == (outcome.engine@ == "mock"@),
        review.caveat matches Some(words) ==> within(words@, "mock engine"@) && within(words@, engines),
{
    if let Some(words) = review.caveat {
        let head = "This was the mock engine: it spends nothing and invents its findings. Choose "@;
        reveal_strlit("This was the mock engine: it spends nothing and invents its findings. Choose ");
        reveal_strlit("mock engine");
        let tail = " in Settings for a real review."@;
        stands_inside(head, engines, tail);
        assert(head =~= head.take(13) + "mock engine"@ + head.skip(24));
        let rest = head.skip(24) + engines + tail;
        stands_inside(head.take(13), "mock engine"@, rest);
        assert(head.take(13) + "mock engine"@ + rest =~= words@);
    }
}

/// The steps come one after another, each once, and the review is the last.
pub proof fn the_steps_come_in_order()
    ensures
        Step::Check.after() == Some(Step::AddRepo),
        Step::AddRepo.after() == Some(Step::PickEngine),
        Step::PickEngine.after() == Some(Step::PickAutonomy),
        Step::PickAutonomy.after() == Some(Step::FirstReview),
        Step::FirstReview.after() is None,
{
}

/// Why there is no review: what held the first run back, where something did.
pub proof fn what_held_the_review_is_said(held: Seq<Seq<char>>)
    ensures
        held.len() > 0 ==> why_no_review(held) == held[0],
        held.len() == 0 ==> why_no_review(held).len() > 0,
{
    reveal_strlit(
        "there is nothing to review yet — rev-local has not discovered a change in this repository. Make a commit, or run `revlocal watch --once`.",
    );
}

/// What a repository is called is what was typed, without the blanks around it; and what is blank names
/// none.
pub proof fn blanks_around_a_name_are_dropped(typed: Seq<char>) -> (r: (Seq<char>, Seq<char>))
    ensures
        is_blank(typed) <==> draft_name(typed) is None,
        draft_name(typed) matches Some(name) ==> typed == r.0 + name + r.1 && is_blank(r.0) && is_blank(r.1) && (
        name.len() > 0 ==> !is_space(name[0]) && !is_space(name.last())),
{
    trimming_takes_off_blanks(typed)
}

} // verus!
