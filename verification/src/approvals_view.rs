//! The approvals inbox, as a screen shows it.
//!
//! There is one representation of what would be sent: the payload itself, verbatim. A preview
//! cannot disagree with what is sent, because there is nothing for it to disagree with.

use vstd::prelude::*;

use crate::text::push_contains;
use crate::model::{PublishAction, PublishActionStatus};

verus! {

/// Why the inbox could not be read.
#[derive(Clone, Debug, PartialEq, Eq)]
pub enum ApprovalsError {
    /// The database could not be read.
    Store {
        /// Why.
        source: String,
    },
}

impl ApprovalsError {
    /// The error in words.
    pub fn describe(&self) -> (r: String)
        ensures
            r@ == match *self {
                Self::Store { source } => "could not read the local database: "@ + source@
                    + "\n  try: revlocal db migrate"@,
            },
    {
        match self {
            Self::Store { source } => crate::text::cat3(
                "could not read the local database: ",
                source.as_str(),
                "\n  try: revlocal db migrate",
            ),
        }
    }
}

/// One action waiting for a human.
#[derive(Clone, Debug, PartialEq, Eq)]
pub struct QueuedAction {
    /// The action's id.
    pub id: i64,
    /// The run it belongs to, so "approve all for this run" has a scope.
    pub run_id: i64,
    /// Where it would be sent.
    pub target: String,
    /// What it would do there.
    pub capability: String,
    /// How risky it was judged.
    pub risk: String,
    /// The payload that would be sent, verbatim.
    pub payload_json: String,
    /// Whether this action carries a finding that could be suppressed.
    pub has_finding: bool,
}

impl QueuedAction {
    /// Whether this is how an action is shown.
    pub open spec fn shows(self, a: PublishAction) -> bool {
        &&& self.id == a.id
        &&& self.run_id == a.run_id
        &&& self.target@ == a.target@
        &&& self.capability@ == a.capability.word()
        &&& self.risk@ == a.risk.word()
        &&& self.payload_json@ == a.payload_json@
        &&& self.has_finding == (a.finding_id is Some)
    }
}

/// The inbox.
#[derive(Clone, Debug, PartialEq, Eq)]
pub struct ApprovalsView {
    /// Everything waiting, oldest first.
    pub waiting: Vec<QueuedAction>,
}

/// The runs of the first `n` actions, in the order they first appear.
pub open spec fn runs_of(waiting: Seq<QueuedAction>) -> Seq<i64>
    decreases waiting.len(),
{
    if waiting.len() == 0 {
        Seq::empty()
    } else {
        let before = runs_of(waiting.drop_last());
        if before.contains(waiting.last().run_id) {
            before
        } else {
            before.push(waiting.last().run_id)
        }
    }
}

/// How many actions belong to a run.
pub open spec fn actions_of(waiting: Seq<QueuedAction>, run_id: i64) -> nat
    decreases waiting.len(),
{
    if waiting.len() == 0 {
        0
    } else {
        actions_of(waiting.drop_last(), run_id) + if waiting.last().run_id == run_id {
            1nat
        } else {
            0
        }
    }
}

/// The ids of the actions that belong to a run, in order.
pub open spec fn ids_of(waiting: Seq<QueuedAction>, run_id: i64) -> Seq<i64>
    decreases waiting.len(),
{
    if waiting.len() == 0 {
        Seq::empty()
    } else if waiting.last().run_id == run_id {
        ids_of(waiting.drop_last(), run_id).push(waiting.last().id)
    } else {
        ids_of(waiting.drop_last(), run_id)
    }
}

fn has_run(seen: &Vec<i64>, run_id: i64) -> (r: bool)
    ensures
        r == seen@.contains(run_id),
{
    let mut i: usize = 0;
    while i < seen.len()
        invariant
            i <= seen.len(),
            forall|j: int| 0 <= j < i ==> seen@[j] != run_id,
        decreases seen.len() - i,
    {
        if seen[i] == run_id {
            return true;
        }
        i += 1;
    }
    false
}

impl ApprovalsView {
    /// The runs represented, in the order they first appear. The scope of "approve all" is a
    /// run rather than the whole inbox.
    pub fn runs(&self) -> (r: Vec<i64>)
        ensures
            r@ == runs_of(self.waiting@),
    {
        let mut seen: Vec<i64> = Vec::new();
        let mut i: usize = 0;
        assert(self.waiting@.take(0) =~= Seq::empty());
        while i < self.waiting.len()
            invariant
                i <= self.waiting.len(),
                seen@ == runs_of(self.waiting@.take(i as int)),
            decreases self.waiting.len() - i,
        {
            assert(self.waiting@.take(i + 1).drop_last() =~= self.waiting@.take(i as int));
            let run_id: i64 = self.waiting[i].run_id;
            if !has_run(&seen, run_id) {
                seen.push(run_id);
            }
            i += 1;
        }
        assert(self.waiting@.take(self.waiting@.len() as int) =~= self.waiting@);
        seen
    }

    /// How many actions one run's "approve all" would cover: the confirmation names it.
    pub fn count_for_run(&self, run_id: i64) -> (r: usize)
        ensures
            r == actions_of(self.waiting@, run_id),
    {
        let mut n: usize = 0;
        let mut i: usize = 0;
        assert(self.waiting@.take(0) =~= Seq::empty());
        while i < self.waiting.len()
            invariant
                i <= self.waiting.len(),
                n <= i,
                n == actions_of(self.waiting@.take(i as int), run_id),
            decreases self.waiting.len() - i,
        {
            assert(self.waiting@.take(i + 1).drop_last() =~= self.waiting@.take(i as int));
            if self.waiting[i].run_id == run_id {
                n += 1;
            }
            i += 1;
        }
        assert(self.waiting@.take(self.waiting@.len() as int) =~= self.waiting@);
        n
    }

    fn ids_for(&self, run_id: i64) -> (r: Vec<i64>)
        ensures
            r@ == ids_of(self.waiting@, run_id),
    {
        let mut ids: Vec<i64> = Vec::new();
        let mut i: usize = 0;
        assert(self.waiting@.take(0) =~= Seq::empty());
        while i < self.waiting.len()
            invariant
                i <= self.waiting.len(),
                ids@ == ids_of(self.waiting@.take(i as int), run_id),
            decreases self.waiting.len() - i,
        {
            assert(self.waiting@.take(i + 1).drop_last() =~= self.waiting@.take(i as int));
            if self.waiting[i].run_id == run_id {
                ids.push(self.waiting[i].id);
            }
            i += 1;
        }
        assert(self.waiting@.take(self.waiting@.len() as int) =~= self.waiting@);
        ids
    }
}

/// The actions of a list that wait for approval, in order.
pub open spec fn awaiting(actions: Seq<PublishAction>) -> Seq<PublishAction>
    decreases actions.len(),
{
    if actions.len() == 0 {
        Seq::empty()
    } else if actions.last().status == PublishActionStatus::AwaitingApproval {
        awaiting(actions.drop_last()).push(actions.last())
    } else {
        awaiting(actions.drop_last())
    }
}

/// The inbox that a list of actions makes.
pub fn gather(actions: &Vec<PublishAction>) -> (r: ApprovalsView)
    ensures
        r.waiting@.len() == awaiting(actions@).len(),
        forall|i: int|
            0 <= i < r.waiting@.len() ==> (#[trigger] r.waiting@[i]).shows(awaiting(actions@)[i]),
{
    let mut waiting: Vec<QueuedAction> = Vec::new();
    let mut i: usize = 0;
    assert(actions@.take(0) =~= Seq::empty());
    while i < actions.len()
        invariant
            i <= actions.len(),
            waiting@.len() == awaiting(actions@.take(i as int)).len(),
            forall|k: int|
                0 <= k < waiting@.len() ==> (#[trigger] waiting@[k]).shows(
                    awaiting(actions@.take(i as int))[k],
                ),
        decreases actions.len() - i,
    {
        assert(actions@.take(i + 1).drop_last() =~= actions@.take(i as int));
        let a = &actions[i];
        if a.status == PublishActionStatus::AwaitingApproval {
            waiting.push(
                QueuedAction {
                    id: a.id,
                    run_id: a.run_id,
                    target: a.target.clone(),
                    capability: a.capability.as_str().to_owned(),
                    risk: a.risk.as_str().to_owned(),
                    payload_json: a.payload_json.clone(),
                    has_finding: a.finding_id.is_some(),
                },
            );
        }
        i += 1;
    }
    assert(actions@.take(actions@.len() as int) =~= actions@);
    ApprovalsView { waiting }
}

/// The ids of the actions of a list that belong to a run, in order.
pub open spec fn ids_in_run(actions: Seq<PublishAction>, run_id: i64) -> Seq<i64>
    decreases actions.len(),
{
    if actions.len() == 0 {
        Seq::empty()
    } else if actions.last().run_id == run_id {
        ids_in_run(actions.drop_last(), run_id).push(actions.last().id)
    } else {
        ids_in_run(actions.drop_last(), run_id)
    }
}

proof fn shown_ids(waiting: Seq<QueuedAction>, actions: Seq<PublishAction>, run_id: i64)
    requires
        waiting.len() == actions.len(),
        forall|i: int| 0 <= i < waiting.len() ==> (#[trigger] waiting[i]).shows(actions[i]),
    ensures
        ids_of(waiting, run_id) == ids_in_run(actions, run_id),
    decreases waiting.len(),
{
    if waiting.len() > 0 {
        assert(waiting[waiting.len() - 1].shows(actions[waiting.len() - 1]));
        shown_ids(waiting.drop_last(), actions.drop_last(), run_id);
    }
}

/// Everything waiting for one run, for "approve all for this run".
pub fn for_run(actions: &Vec<PublishAction>, run_id: i64) -> (r: Vec<i64>)
    ensures
        r@ == ids_in_run(awaiting(actions@), run_id),
{
    let view = gather(actions);
    proof {
        shown_ids(view.waiting@, awaiting(actions@), run_id);
    }
    view.ids_for(run_id)
}

// --- what holds of every inbox ---

/// The count that the confirmation names is the number of actions that are approved.
pub proof fn the_count_is_what_is_covered(waiting: Seq<QueuedAction>, run_id: i64)
    ensures
        ids_of(waiting, run_id).len() == actions_of(waiting, run_id),
    decreases waiting.len(),
{
    if waiting.len() > 0 {
        the_count_is_what_is_covered(waiting.drop_last(), run_id);
    }
}

/// A run is offered exactly when it has something waiting, and once.
pub proof fn every_run_offered_has_something_waiting(waiting: Seq<QueuedAction>, run_id: i64)
    ensures
        runs_of(waiting).contains(run_id) == (actions_of(waiting, run_id) > 0),
        runs_of(waiting).no_duplicates(),
    decreases waiting.len(),
{
    if waiting.len() > 0 {
        let before = runs_of(waiting.drop_last());
        every_run_offered_has_something_waiting(waiting.drop_last(), run_id);
        let last = waiting.last().run_id;
        let all = runs_of(waiting);
        if !before.contains(last) {
            assert(all == before.push(last));
            assert(all[before.len() as int] == last);
            assert forall|i: int| 0 <= i < before.len() implies all[i] == before[i] by {}
            if before.contains(run_id) {
                let k = choose|k: int| 0 <= k < before.len() && before[k] == run_id;
                assert(all[k] == run_id);
            }
        } else if last == run_id {
            every_run_offered_has_something_waiting(waiting.drop_last(), last);
        }
    }
}

/// What is shown of an action is that action, with its payload verbatim.
pub proof fn an_action_is_shown_as_it_is(shown: QueuedAction, a: PublishAction)
    requires
        shown.shows(a),
    ensures
        shown.id == a.id,
        shown.run_id == a.run_id,
        shown.target@ == a.target@,
        shown.capability@ == a.capability.word(),
        shown.risk@ == a.risk.word(),
        shown.payload_json@ == a.payload_json@,
        shown.has_finding == (a.finding_id is Some),
{
}

/// What waits for approval is all of that status, and nothing else.
pub proof fn only_what_waits_is_shown(actions: Seq<PublishAction>, a: PublishAction)
    ensures
        awaiting(actions).contains(a) == (actions.contains(a) && a.status == PublishActionStatus::AwaitingApproval),
        awaiting(actions).len() <= actions.len(),
    decreases actions.len(),
{
    if actions.len() > 0 {
        let before = actions.drop_last();
        only_what_waits_is_shown(before, a);
        push_contains(before, actions.last(), a);
        push_contains(awaiting(before), actions.last(), a);
        assert(before.push(actions.last()) =~= actions);
    }
}

/// A run is offered once where something of it waits, and not otherwise.
pub proof fn a_run_is_offered_once(waiting: Seq<QueuedAction>, run_id: i64)
    ensures
        runs_of(waiting).contains(run_id) == exists|i: int|
            0 <= i < waiting.len() && (#[trigger] waiting[i]).run_id == run_id,
        runs_of(waiting).no_duplicates(),
    decreases waiting.len(),
{
    if waiting.len() > 0 {
        let before = waiting.drop_last();
        let last = waiting.last();
        a_run_is_offered_once(before, run_id);
        push_contains(runs_of(before), last.run_id, run_id);
        if runs_of(before).contains(run_id) {
            let i = choose|i: int| 0 <= i < before.len() && (#[trigger] before[i]).run_id == run_id;
            assert(waiting[i].run_id == run_id);
        } else if last.run_id == run_id {
            assert(waiting[waiting.len() - 1].run_id == run_id);
        }
        assert forall|i: int| 0 <= i < waiting.len() && (#[trigger] waiting[i]).run_id == run_id implies runs_of(
            waiting,
        ).contains(run_id) by {
            if i < before.len() {
                assert(before[i].run_id == run_id);
            }
        }
    }
}

/// Approving everything of a run covers the actions of that run, all of them and no other.
pub proof fn a_run_covers_its_actions(actions: Seq<PublishAction>, run_id: i64, id: i64)
    ensures
        ids_in_run(actions, run_id).contains(id) == exists|i: int|
            0 <= i < actions.len() && (#[trigger] actions[i]).run_id == run_id && actions[i].id == id,
    decreases actions.len(),
{
    if actions.len() > 0 {
        let before = actions.drop_last();
        let last = actions.last();
        a_run_covers_its_actions(before, run_id, id);
        push_contains(ids_in_run(before, run_id), last.id, id);
        if ids_in_run(before, run_id).contains(id) {
            let i = choose|i: int|
                0 <= i < before.len() && (#[trigger] before[i]).run_id == run_id && before[i].id == id;
            assert(actions[i].id == id);
        } else if last.run_id == run_id && last.id == id {
            assert(actions[actions.len() - 1].id == id);
        }
        assert forall|i: int|
            0 <= i < actions.len() && (#[trigger] actions[i]).run_id == run_id && actions[i].id == id implies ids_in_run(
            actions,
            run_id,
        ).contains(id) by {
            if i < before.len() {
                assert(before[i].id == id);
            }
        }
    }
}

} // verus!
