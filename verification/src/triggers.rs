//! The trigger bus and its coalescing window.
//!
//! A trigger never reviews: it schedules discovery, discovery finds changes, and changes are
//! reviewed. One commit can fire a hook, a poll, a webhook and a person's click within a
//! second; without coalescing it would be reviewed four times.
//!
//! # Coalescing is per repository
//!
//! Two repositories triggered at the same moment are two pieces of work. Collapsing them
//! would drop one.
//!
//! # An event during a pass is not an event that can be discarded
//!
//! Discovery reads a repository at a moment in time, and the bus cannot tell whether it saw
//! what caused an event that arrived meanwhile. So such events schedule exactly one follow-up.
//!
//! # A window that closes, not a pass that starts
//!
//! The first event opens a window, and the pass is due when the window closes: starting at
//! once would turn four simultaneous triggers into two passes.

use std::collections::BTreeMap;

use vstd::prelude::*;
use vstd::std_specs::cmp::OrdSpec;
use vstd::std_specs::iter::IteratorSpec;

use crate::clock::{whole, whole_units, Timestamp, NANOS_PER_MILLI};
use crate::model::TriggerSource;

verus! {

/// The default coalescing window.
pub const DEFAULT_COALESCE_WINDOW_MS: u64 = 1500;

/// What every trigger source produces.
#[derive(Clone, Debug, PartialEq, Eq)]
pub struct TriggerEvent {
    /// Which repository was triggered.
    pub repo_id: i64,
    /// Where it came from.
    pub source: TriggerSource,
    /// A sha, pull request number or revision, when the source knew one. Advisory only:
    /// nothing looks it up.
    pub hint: Option<String>,
    /// When the bus received it.
    pub received_at: Timestamp,
}

impl TriggerEvent {
    /// An event with no hint.
    pub fn new(repo_id: i64, source: TriggerSource, received_at: Timestamp) -> (r: TriggerEvent)
        ensures
            r.repo_id == repo_id,
            r.source == source,
            r.hint is None,
            r.received_at == received_at,
    {
        TriggerEvent { repo_id, source, hint: None, received_at }
    }

    /// An event carrying a hint.
    #[must_use]
    pub fn with_hint(self, hint: &str) -> (r: TriggerEvent)
        ensures
            r.repo_id == self.repo_id,
            r.source == self.source,
            r.hint is Some,
            r.hint->0@ == hint@,
            r.received_at == self.received_at,
    {
        TriggerEvent {
            repo_id: self.repo_id,
            source: self.source,
            hint: Some(hint.to_owned()),
            received_at: self.received_at,
        }
    }
}

/// What the bus decided to do with an event. Every event gets one: none is dropped.
#[derive(Clone, Copy, Debug, PartialEq, Eq, Structural)]
pub enum Admission {
    /// Opened a coalescing window. A pass becomes due when it closes.
    Scheduled {
        /// The repository.
        repo_id: i64,
        /// When the pass becomes due.
        due_at: Timestamp,
    },
    /// Folded into a window already open.
    Coalesced {
        /// The repository.
        repo_id: i64,
        /// How many events have now folded in, including this one.
        folded: usize,
    },
    /// A pass is running; this joined the single follow-up.
    Queued {
        /// The repository.
        repo_id: i64,
        /// Whether this event created the follow-up, rather than joining one.
        first: bool,
    },
}

impl Admission {
    /// The repository this concerns.
    pub open spec fn about(self) -> i64 {
        match self {
            Self::Scheduled { repo_id, .. } => repo_id,
            Self::Coalesced { repo_id, .. } => repo_id,
            Self::Queued { repo_id, .. } => repo_id,
        }
    }

    /// Whether this event opened a new window.
    pub fn is_scheduled(&self) -> (r: bool)
        ensures
            r == (self is Scheduled),
    {
        matches!(self, Self::Scheduled { .. })
    }

    /// The repository this concerns.
    pub fn repo_id(&self) -> (r: i64)
        ensures
            r == self.about(),
    {
        match self {
            Self::Scheduled { repo_id, .. } => *repo_id,
            Self::Coalesced { repo_id, .. } => *repo_id,
            Self::Queued { repo_id, .. } => *repo_id,
        }
    }
}

/// One discovery pass the caller should run.
#[derive(Clone, Debug, PartialEq, Eq)]
pub struct DiscoveryPass {
    /// The repository to read.
    pub repo_id: i64,
    /// Every source that contributed, in arrival order.
    pub sources: Vec<TriggerSource>,
}

/// One repository's coalescing state.
pub struct RepoTriggers {
    /// When the window that is currently open began.
    pub opened: Option<Timestamp>,
    /// Sources that have arrived inside the open window.
    pub pending: Seq<TriggerSource>,
    /// Whether a discovery pass is running.
    pub running: bool,
    /// Whether an event arrived during it.
    pub follow_up: bool,
    /// Sources that arrived during it.
    pub later: Seq<TriggerSource>,
}

impl RepoTriggers {
    /// A repository that nothing has triggered.
    pub open spec fn idle() -> RepoTriggers {
        RepoTriggers {
            opened: None,
            pending: Seq::empty(),
            running: false,
            follow_up: false,
            later: Seq::empty(),
        }
    }

    /// Whether an event at `at` falls inside the open window.
    pub open spec fn in_window(self, at: Timestamp, window_ms: int) -> bool {
        self.opened is Some && still_open(self.opened->0, at, window_ms)
    }

    /// Whether an event at `at` opens a window: no pass runs, and none is open.
    pub open spec fn opens(self, at: Timestamp, window_ms: int) -> bool {
        !self.running && !self.in_window(at, window_ms)
    }

    /// The state once an event has been offered. Sources of a window that has closed without a
    /// pass having been handed out wait with the new one.
    pub open spec fn after_event(self, source: TriggerSource, at: Timestamp, window_ms: int) -> RepoTriggers {
        if self.running {
            RepoTriggers { follow_up: true, later: self.later.push(source), ..self }
        } else if self.in_window(at, window_ms) {
            RepoTriggers { pending: self.pending.push(source), ..self }
        } else {
            RepoTriggers { opened: Some(at), pending: self.pending.push(source), ..self }
        }
    }

    /// What the bus says to an event.
    pub open spec fn admission(self, repo_id: i64, at: Timestamp, window_ms: int) -> Admission {
        if self.running {
            Admission::Queued { repo_id, first: !self.follow_up }
        } else if self.in_window(at, window_ms) {
            Admission::Coalesced { repo_id, folded: (self.pending.len() + 1) as usize }
        } else {
            Admission::Scheduled { repo_id, due_at: due_at(at, window_ms) }
        }
    }

    /// Whether a pass is due: a window has closed with something in it, and no pass runs.
    pub open spec fn is_due(self, now: Timestamp, window_ms: int) -> bool {
        &&& !self.running
        &&& self.pending.len() > 0
        &&& self.opened is Some
        &&& !still_open(self.opened->0, now, window_ms)
    }

    /// The state once a due pass has been handed out.
    pub open spec fn started(self) -> RepoTriggers {
        RepoTriggers { running: true, ..self }
    }

    /// The state once due passes have been handed out: started, if its own was one of them.
    pub open spec fn if_due(self, now: Timestamp, window_ms: int) -> RepoTriggers {
        if self.is_due(now, window_ms) {
            self.started()
        } else {
            self
        }
    }

    /// The state once its pass has finished: the follow-up runs at once, if there is one.
    pub open spec fn finished(self, at: Timestamp) -> RepoTriggers {
        if self.follow_up {
            RepoTriggers {
                opened: Some(at),
                pending: self.later,
                running: true,
                follow_up: false,
                later: Seq::empty(),
            }
        } else {
            RepoTriggers { opened: None, pending: Seq::empty(), running: false, ..self }
        }
    }
}

/// Whether `later` is within `window_ms` of `opened`, in whole milliseconds.
///
/// A negative difference, which a clock adjustment can produce, counts as inside: opening a
/// second window for an event that arrived first is what coalescing exists to prevent.
pub open spec fn still_open(opened: Timestamp, later: Timestamp, window_ms: int) -> bool {
    let elapsed = whole_units(later.nanos - opened.nanos, NANOS_PER_MILLI as int);
    elapsed < 0 || elapsed < window_ms
}

/// A window as a signed number of milliseconds: past the largest, it wraps.
pub open spec fn signed_window(window_ms: int) -> int {
    if window_ms > i64::MAX {
        window_ms - 0x1_0000_0000_0000_0000
    } else {
        window_ms
    }
}

/// When a window that opens at `at` closes.
pub open spec fn due_at(at: Timestamp, window_ms: int) -> Timestamp {
    Timestamp { nanos: (at.nanos + signed_window(window_ms) * NANOS_PER_MILLI) as i128 }
}

fn within(opened: Timestamp, later: Timestamp, window_ms: u64) -> (r: bool)
    requires
        opened.in_calendar(),
        later.in_calendar(),
    ensures
        r == still_open(opened, later, window_ms as int),
{
    let elapsed: i128 = whole(later.since(opened), NANOS_PER_MILLI);
    elapsed < 0 || elapsed < window_ms as i128
}

#[derive(Debug)]
struct RepoState {
    window_opened_at: Option<Timestamp>,
    pending_sources: Vec<TriggerSource>,
    pass_running: bool,
    follow_up_scheduled: bool,
    follow_up_sources: Vec<TriggerSource>,
}

impl View for RepoState {
    type V = RepoTriggers;

    closed spec fn view(&self) -> RepoTriggers {
        RepoTriggers {
            opened: self.window_opened_at,
            pending: self.pending_sources@,
            running: self.pass_running,
            follow_up: self.follow_up_scheduled,
            later: self.follow_up_sources@,
        }
    }
}

impl RepoState {
    fn new() -> (r: RepoState)
        ensures
            r@ == RepoTriggers::idle(),
    {
        RepoState {
            window_opened_at: None,
            pending_sources: Vec::new(),
            pass_running: false,
            follow_up_scheduled: false,
            follow_up_sources: Vec::new(),
        }
    }
}

/// Coalesces trigger events into discovery passes.
///
/// The bus makes a decision about an event; running the pass is the caller's job, and so is
/// the clock.
#[derive(Debug)]
pub struct TriggerBus {
    window_ms: u64,
    repos: BTreeMap<i64, RepoState>,
}

spec fn states_of(repos: Map<i64, RepoState>) -> Map<i64, RepoTriggers> {
    repos.map_values(|s: RepoState| s@)
}

spec fn in_time(state: RepoTriggers) -> bool {
    state.opened is Some ==> state.opened->0.in_calendar()
}

impl TriggerBus {
    /// The state of every repository that has been triggered.
    pub closed spec fn states(self) -> Map<i64, RepoTriggers> {
        states_of(self.repos@)
    }

    /// Whether the dates that the bus holds are ones that the calendar has.
    pub closed spec fn wf(self) -> bool {
        forall|id: i64| #[trigger] self.repos@.contains_key(id) ==> in_time(self.repos@[id]@)
    }

    /// The configured window.
    pub closed spec fn window(self) -> int {
        self.window_ms as int
    }

    /// The state of one repository; idle when nothing has triggered it.
    pub open spec fn repo(self, id: i64) -> RepoTriggers {
        state_of(self.states(), id)
    }

    /// A bus with the given window. Zero means no coalescing at all.
    pub fn new(window_ms: u64) -> (r: TriggerBus)
        ensures
            r.wf(),
            r.window() == window_ms,
            r.states() == Map::<i64, RepoTriggers>::empty(),
    {
        let r = TriggerBus { window_ms, repos: BTreeMap::new() };
        assert(r.states() =~= Map::<i64, RepoTriggers>::empty());
        r
    }

    /// The configured window.
    pub fn window_ms(&self) -> (r: u64)
        ensures
            r == self.window(),
    {
        self.window_ms
    }

    /// The repositories that have been triggered, in order.
    fn known(&self) -> (r: Vec<i64>)
        ensures
            forall|id: i64| #[trigger] self.repos@.contains_key(id) == r@.contains(id),
            ascending(r@),
    {
        broadcast use vstd::laws_cmp::group_laws_cmp;

        let mut r: Vec<i64> = Vec::new();
        for id in it: self.repos.keys()
            invariant
                r@.len() == it.index(),
                forall|j: int| 0 <= j < r@.len() ==> #[trigger] r@[j] == *it.seq()[j],
        {
            r.push(*id);
        }
        proof {
            let s = self.repos.keys().remaining();
            assert(r@ =~= s.unref());
            assert forall|id: i64| #[trigger] self.repos@.contains_key(id) == r@.contains(id) by {
                assert(r@.to_set().contains(id) == r@.contains(id));
            }
            assert(vstd::laws_cmp::obeys_cmp::<&i64>());
            assert(vstd::std_specs::btree::increasing_seq(s));
            assert forall|i: int, j: int| 0 <= i < j < r@.len() implies (#[trigger] r@[i]) < (#[trigger] r@[j]) by {
                assert(OrdSpec::cmp_spec(&s[i], &s[j]) is Less);
                assert(OrdSpec::cmp_spec(s[i], s[j]) is Less);
            }
        }
        r
    }

    /// The state of a repository that has been triggered.
    fn look_up(&self, id: i64) -> (r: Option<&RepoState>)
        ensures
            match r {
                Some(state) => self.repos@.contains_key(id) && self.repos@[id] == *state,
                None => !self.repos@.contains_key(id),
            },
    {
        broadcast use vstd::laws_cmp::group_laws_cmp;

        self.repos.get(&id)
    }

    /// The state of a repository, taken out; idle when nothing has triggered it.
    fn take_out(&mut self, id: i64) -> (r: RepoState)
        requires
            old(self).wf(),
        ensures
            final(self).wf(),
            final(self).window() == old(self).window(),
            final(self).states() == old(self).states().remove(id),
            r@ == old(self).repo(id),
            in_time(r@),
    {
        broadcast use vstd::laws_cmp::group_laws_cmp;

        let ghost was = self.repos@;
        let r = match self.repos.remove(&id) {
            Some(state) => state,
            None => RepoState::new(),
        };
        assert(self.states() =~= states_of(was).remove(id));
        r
    }

    /// Put the state of a repository back.
    fn put(&mut self, id: i64, state: RepoState)
        requires
            old(self).wf(),
            in_time(state@),
        ensures
            final(self).wf(),
            final(self).window() == old(self).window(),
            final(self).states() == old(self).states().insert(id, state@),
    {
        broadcast use vstd::laws_cmp::group_laws_cmp;

        let ghost was = self.repos@;
        self.repos.insert(id, state);
        assert(self.states() =~= states_of(was).insert(id, state@));
    }

    /// Offer an event to the bus.
    ///
    /// The returned [`Admission`] never says to ignore it.
    pub fn offer(&mut self, event: &TriggerEvent) -> (r: Admission)
        requires
            old(self).wf(),
            event.received_at.in_calendar(),
            old(self).repo(event.repo_id).opens(event.received_at, old(self).window()) ==> due_at(
                event.received_at,
                old(self).window(),
            ).in_calendar(),
            !old(self).repo(event.repo_id).running ==> old(self).repo(event.repo_id).pending.len()
                < usize::MAX,
        ensures
            final(self).wf(),
            final(self).window() == old(self).window(),
            r == old(self).repo(event.repo_id).admission(
                event.repo_id,
                event.received_at,
                old(self).window(),
            ),
            final(self).states() == after_offer(
                old(self).states(),
                event.repo_id,
                event.source,
                event.received_at,
                old(self).window(),
            ),
    {
        let ghost was = *self;
        let id: i64 = event.repo_id;
        let window_ms: u64 = self.window_ms;
        let mut state = self.take_out(id);
        let ghost before = state@;
        let admission = if state.pass_running {
            // Everything that arrives now becomes part of exactly one follow-up, because
            // discovery may or may not have seen what caused it.
            let first = !state.follow_up_scheduled;
            state.follow_up_scheduled = true;
            state.follow_up_sources.push(event.source);
            Admission::Queued { repo_id: id, first }
        } else {
            let inside = match state.window_opened_at {
                Some(opened) => within(opened, event.received_at, window_ms),
                None => false,
            };
            if inside {
                state.pending_sources.push(event.source);
                Admission::Coalesced { repo_id: id, folded: state.pending_sources.len() }
            } else {
                // No window, or the previous one has expired: this event opens one. What came in
                // the expired one is still owed a pass, and is named by the next.
                state.window_opened_at = Some(event.received_at);
                state.pending_sources.push(event.source);
                let offset: i128 = if window_ms > i64::MAX as u64 {
                    window_ms as i128 - 0x1_0000_0000_0000_0000
                } else {
                    window_ms as i128
                };
                Admission::Scheduled {
                    repo_id: id,
                    due_at: Timestamp { nanos: event.received_at.nanos + offset * NANOS_PER_MILLI },
                }
            }
        };
        let ghost wanted = before.after_event(event.source, event.received_at, was.window());
        assert(state@ == wanted);
        self.put(id, state);
        assert(was.states().remove(id).insert(id, wanted) =~= was.states().insert(id, wanted));
        admission
    }

    /// Every pass whose coalescing window has closed by `now`, by repository.
    ///
    /// Each is marked as running, so that a second call before [`TriggerBus::pass_finished`]
    /// returns nothing for that repository.
    pub fn due_passes(&mut self, now: Timestamp) -> (r: Vec<DiscoveryPass>)
        requires
            old(self).wf(),
            now.in_calendar(),
        ensures
            final(self).wf(),
            final(self).window() == old(self).window(),
            // One pass for each repository that is due, with the sources that led to it.
            forall|i: int|
                0 <= i < r@.len() ==> old(self).states().contains_key((#[trigger] r@[i]).repo_id)
                    && old(self).states()[r@[i].repo_id].is_due(now, old(self).window()) && r@[i].sources@
                    == old(self).states()[r@[i].repo_id].pending,
            forall|id: i64|
                #![trigger old(self).states()[id]]
                old(self).states().contains_key(id) && old(self).states()[id].is_due(now, old(self).window())
                    ==> exists|i: int| 0 <= i < r@.len() && (#[trigger] r@[i]).repo_id == id,
            forall|i: int, j: int|
                0 <= i < j < r@.len() ==> (#[trigger] r@[i]).repo_id < (#[trigger] r@[j]).repo_id,
            // Those repositories are running, and nothing else has changed.
            final(self).states() == old(self).states().map_values(
                |t: RepoTriggers| t.if_due(now, old(self).window()),
            ),
    {
        let ghost was = *self;
        let ghost all = was.states();
        let ghost window = was.window();
        let window_ms: u64 = self.window_ms;
        let ids = self.known();
        let mut passes: Vec<DiscoveryPass> = Vec::new();
        let mut i: usize = 0;
        assert(pass_views(passes@) =~= Seq::empty());
        assert forall|id: i64| #[trigger] all.contains_key(id) == ids@.contains(id) by {
            assert(was.repos@.contains_key(id) == ids@.contains(id));
        }
        while i < ids.len()
            invariant
                self.wf(),
                now.in_calendar(),
                window_ms == window,
                self.window() == window,
                ascending(ids@),
                forall|id: i64| #[trigger] all.contains_key(id) == ids@.contains(id),
                i <= ids@.len(),
                self.states().dom() == all.dom(),
                forall|k: int| i <= k < ids@.len() ==> self.states()[#[trigger] ids@[k]] == all[ids@[k]],
                forall|k: int|
                    0 <= k < i ==> self.states()[#[trigger] ids@[k]] == all[ids@[k]].if_due(now, window),
                pass_views(passes@) == due_list(all, ids@, now, window, i as int),
            decreases ids.len() - i,
        {
            let id: i64 = ids[i];
            let ghost cur = self.states();
            assert(ids@.contains(id));
            assert(all.contains_key(id) && cur.contains_key(id));
            let due = match self.look_up(id) {
                Some(state) => {
                    assert(state@ == all[id]);
                    assert(in_time(state@));
                    !state.pass_running && !state.pending_sources.is_empty() && match state.window_opened_at {
                        Some(opened) => !within(opened, now, window_ms),
                        None => false,
                    }
                },
                None => false,
            };
            assert(due == all[id].is_due(now, window));
            if due {
                let ghost passes_before = passes@;
                let mut state = self.take_out(id);
                let sources = copy_sources(&state.pending_sources);
                passes.push(DiscoveryPass { repo_id: id, sources });
                state.pass_running = true;
                assert(state@ == all[id].started());
                self.put(id, state);
                proof {
                    assert(self.states() =~= cur.insert(id, all[id].started()));
                    assert(self.states().dom() =~= all.dom());
                    assert(pass_views(passes@) =~= pass_views(passes_before).push((id, all[id].pending)));
                }
            }
            i += 1;
        }
        proof {
            let start = |t: RepoTriggers| t.if_due(now, old(self).window());
            assert forall|id: i64| #[trigger] all.contains_key(id) implies self.states()[id] == start(all[id]) by {
                let k = choose|k: int| 0 <= k < ids@.len() && ids@[k] == id;
                assert(self.states()[ids@[k]] == all[ids@[k]].if_due(now, window));
            }
            assert(self.states() =~= all.map_values(start));
            let list = due_list(all, ids@, now, window, ids@.len() as int);
            assert forall|p: int| 0 <= p < passes@.len() implies all.contains_key((#[trigger] passes@[p]).repo_id)
                && all[passes@[p].repo_id].is_due(now, window) && passes@[p].sources@
                == all[passes@[p].repo_id].pending by {
                assert(list[p] == (passes@[p].repo_id, passes@[p].sources@));
                let k = due_slot(all, ids@, now, window, ids@.len() as int, p);
                assert(ids@.contains(ids@[k]));
            }
            assert forall|p: int, q: int| 0 <= p < q < passes@.len() implies (
            #[trigger] passes@[p]).repo_id < (#[trigger] passes@[q]).repo_id by {
                assert(list[p] == (passes@[p].repo_id, passes@[p].sources@));
                assert(list[q] == (passes@[q].repo_id, passes@[q].sources@));
                due_list_ascends(all, ids@, now, window, ids@.len() as int, p, q);
            }
            assert forall|id: i64| #![trigger all[id]]
                all.contains_key(id) && all[id].is_due(now, window) implies exists|p: int|
                0 <= p < passes@.len() && (#[trigger] passes@[p]).repo_id == id by {
                let k = choose|k: int| 0 <= k < ids@.len() && ids@[k] == id;
                let p = due_place(all, ids@, now, window, ids@.len() as int, k);
                assert(list[p] == (passes@[p].repo_id, passes@[p].sources@));
                assert(passes@[p].repo_id == id);
            }
        }
        passes
    }

    /// Tell the bus a discovery pass finished.
    ///
    /// Returns the follow-up pass to run, if events arrived while it was running: one, however
    /// many arrived. It runs at once rather than behind another window, which would delay a
    /// change behind its own trigger twice.
    pub fn pass_finished(&mut self, repo_id: i64, at: Timestamp) -> (r: Option<DiscoveryPass>)
        requires
            old(self).wf(),
            at.in_calendar(),
        ensures
            final(self).wf(),
            final(self).window() == old(self).window(),
            r is Some == (old(self).states().contains_key(repo_id) && old(self).states()[repo_id].follow_up),
            r matches Some(pass) ==> pass.repo_id == repo_id && pass.sources@ == old(self).states()[repo_id].later,
            final(self).states() == if old(self).states().contains_key(repo_id) {
                old(self).states().insert(repo_id, old(self).states()[repo_id].finished(at))
            } else {
                old(self).states()
            },
    {
        let ghost was = self.states();
        if self.look_up(repo_id).is_none() {
            return None;
        }
        let mut state = self.take_out(repo_id);
        let ghost before = state@;
        assert(before == was[repo_id]);
        if !state.follow_up_scheduled {
            state.pass_running = false;
            state.pending_sources = Vec::new();
            state.window_opened_at = None;
            assert(state@ == before.finished(at));
            self.put(repo_id, state);
            assert(self.states() =~= was.insert(repo_id, before.finished(at)));
            return None;
        }
        let sources = copy_sources(&state.follow_up_sources);
        state.pending_sources = copy_sources(&state.follow_up_sources);
        state.follow_up_sources = Vec::new();
        state.follow_up_scheduled = false;
        state.window_opened_at = Some(at);
        state.pass_running = true;
        assert(state@ == before.finished(at));
        self.put(repo_id, state);
        assert(self.states() =~= was.insert(repo_id, before.finished(at)));
        Some(DiscoveryPass { repo_id, sources })
    }

    /// The sources folded into the pass currently open for a repository.
    pub fn pending_sources(&self, repo_id: i64) -> (r: Vec<TriggerSource>)
        ensures
            r@ == self.repo(repo_id).pending,
    {
        match self.look_up(repo_id) {
            Some(state) => copy_sources(&state.pending_sources),
            None => Vec::new(),
        }
    }

    /// Whether a pass is running for a repository.
    pub fn is_pass_running(&self, repo_id: i64) -> (r: bool)
        ensures
            r == self.repo(repo_id).running,
    {
        match self.look_up(repo_id) {
            Some(state) => state.pass_running,
            None => false,
        }
    }

    /// Whether a follow-up pass is waiting for the running one to finish.
    pub fn has_follow_up(&self, repo_id: i64) -> (r: bool)
        ensures
            r == self.repo(repo_id).follow_up,
    {
        match self.look_up(repo_id) {
            Some(state) => state.follow_up_scheduled,
            None => false,
        }
    }
}

spec fn ascending(ids: Seq<i64>) -> bool {
    forall|i: int, j: int| 0 <= i < j < ids.len() ==> (#[trigger] ids[i]) < (#[trigger] ids[j])
}

spec fn pass_views(v: Seq<DiscoveryPass>) -> Seq<(i64, Seq<TriggerSource>)> {
    v.map_values(|p: DiscoveryPass| (p.repo_id, p.sources@))
}

spec fn due_list(all: Map<i64, RepoTriggers>, ids: Seq<i64>, now: Timestamp, window_ms: int, n: int) -> Seq<
    (i64, Seq<TriggerSource>),
>
    decreases n,
{
    if n <= 0 {
        Seq::empty()
    } else if all[ids[n - 1]].is_due(now, window_ms) {
        due_list(all, ids, now, window_ms, n - 1).push((ids[n - 1], all[ids[n - 1]].pending))
    } else {
        due_list(all, ids, now, window_ms, n - 1)
    }
}

proof fn due_slot(
    all: Map<i64, RepoTriggers>,
    ids: Seq<i64>,
    now: Timestamp,
    window_ms: int,
    n: int,
    p: int,
) -> (k: int)
    requires
        0 <= n <= ids.len(),
        0 <= p < due_list(all, ids, now, window_ms, n).len(),
    ensures
        0 <= k < n,
        all[ids[k]].is_due(now, window_ms),
        due_list(all, ids, now, window_ms, n)[p] == (ids[k], all[ids[k]].pending),
    decreases n,
{
    let before = due_list(all, ids, now, window_ms, n - 1);
    if p < before.len() {
        due_slot(all, ids, now, window_ms, n - 1, p)
    } else {
        n - 1
    }
}

proof fn due_place(
    all: Map<i64, RepoTriggers>,
    ids: Seq<i64>,
    now: Timestamp,
    window_ms: int,
    n: int,
    k: int,
) -> (p: int)
    requires
        0 <= k < n <= ids.len(),
        all[ids[k]].is_due(now, window_ms),
    ensures
        0 <= p < due_list(all, ids, now, window_ms, n).len(),
        due_list(all, ids, now, window_ms, n)[p].0 == ids[k],
    decreases n,
{
    let before = due_list(all, ids, now, window_ms, n - 1);
    if k == n - 1 {
        before.len() as int
    } else {
        due_place(all, ids, now, window_ms, n - 1, k)
    }
}

proof fn due_list_ascends(
    all: Map<i64, RepoTriggers>,
    ids: Seq<i64>,
    now: Timestamp,
    window_ms: int,
    n: int,
    p: int,
    q: int,
)
    requires
        ascending(ids),
        0 <= n <= ids.len(),
        0 <= p < q < due_list(all, ids, now, window_ms, n).len(),
    ensures
        due_list(all, ids, now, window_ms, n)[p].0 < due_list(all, ids, now, window_ms, n)[q].0,
    decreases n,
{
    let before = due_list(all, ids, now, window_ms, n - 1);
    if q < before.len() {
        due_list_ascends(all, ids, now, window_ms, n - 1, p, q);
    } else {
        let k = due_slot(all, ids, now, window_ms, n - 1, p);
        assert(ids[k] < ids[n - 1]);
    }
}

impl Default for TriggerBus {
    /// A bus with the default window.
    fn default() -> (r: TriggerBus)
        ensures
            r.wf(),
            r.window() == DEFAULT_COALESCE_WINDOW_MS,
            r.states() == Map::<i64, RepoTriggers>::empty(),
    {
        TriggerBus::new(DEFAULT_COALESCE_WINDOW_MS)
    }
}

fn copy_sources(v: &Vec<TriggerSource>) -> (r: Vec<TriggerSource>)
    ensures
        r@ == v@,
{
    let mut r: Vec<TriggerSource> = Vec::new();
    let mut i: usize = 0;
    while i < v.len()
        invariant
            i <= v.len(),
            r@ == v@.take(i as int),
        decreases v.len() - i,
    {
        r.push(v[i]);
        assert(v@.take(i + 1) =~= v@.take(i as int).push(v@[i as int]));
        i += 1;
    }
    assert(v@.take(v@.len() as int) =~= v@);
    r
}

// --- what holds of the bus ---

/// A repository's state once a series of events, each a source and a time, has been offered.
pub open spec fn after_events(
    state: RepoTriggers,
    events: Seq<(TriggerSource, Timestamp)>,
    window_ms: int,
) -> RepoTriggers
    decreases events.len(),
{
    if events.len() == 0 {
        state
    } else {
        after_events(state, events.drop_last(), window_ms).after_event(
            events.last().0,
            events.last().1,
            window_ms,
        )
    }
}

/// The sources of a series of events.
pub open spec fn sources_of(events: Seq<(TriggerSource, Timestamp)>) -> Seq<TriggerSource> {
    events.map_values(|e: (TriggerSource, Timestamp)| e.0)
}

/// Events within one window collapse into one pass, which names every one of them, and which
/// is due exactly once the window has closed.
pub proof fn events_in_one_window_make_one_pass(
    events: Seq<(TriggerSource, Timestamp)>,
    window_ms: int,
    now: Timestamp,
)
    requires
        events.len() > 0,
        forall|i: int|
            0 < i < events.len() ==> still_open(events[0].1, (#[trigger] events[i]).1, window_ms),
    ensures
        ({
            let state = after_events(RepoTriggers::idle(), events, window_ms);
            &&& state.pending == sources_of(events)
            &&& state.is_due(now, window_ms) == !still_open(events[0].1, now, window_ms)
            &&& !state.started().is_due(now, window_ms)
            &&& state.started().finished(now) == RepoTriggers::idle()
        }),
{
    one_window(events, window_ms);
    let state = after_events(RepoTriggers::idle(), events, window_ms);
    assert(sources_of(events).len() > 0);
    assert(state.started().finished(now).later =~= Seq::empty());
}

proof fn one_window(events: Seq<(TriggerSource, Timestamp)>, window_ms: int)
    requires
        events.len() > 0,
        forall|i: int|
            0 < i < events.len() ==> still_open(events[0].1, (#[trigger] events[i]).1, window_ms),
    ensures
        after_events(RepoTriggers::idle(), events, window_ms) == (RepoTriggers {
            opened: Some(events[0].1),
            pending: sources_of(events),
            ..RepoTriggers::idle()
        }),
    decreases events.len(),
{
    let before = events.drop_last();
    if events.len() == 1 {
        assert(after_events(RepoTriggers::idle(), before, window_ms) == RepoTriggers::idle());
        assert(sources_of(events) =~= seq![events[0].0]);
    } else {
        assert forall|i: int| 0 < i < before.len() implies still_open(
            before[0].1,
            (#[trigger] before[i]).1,
            window_ms,
        ) by {
            assert(before[i] == events[i]);
        }
        one_window(before, window_ms);
        assert(still_open(events[0].1, events[events.len() - 1].1, window_ms));
        assert(sources_of(before).push(events.last().0) =~= sources_of(events));
    }
}

/// Events during a pass make exactly one follow-up, which names every one of them and starts
/// as soon as the pass has finished.
pub proof fn events_during_a_pass_make_one_follow_up(
    state: RepoTriggers,
    events: Seq<(TriggerSource, Timestamp)>,
    window_ms: int,
    at: Timestamp,
)
    requires
        state.running,
        !state.follow_up,
        state.later.len() == 0,
        events.len() > 0,
    ensures
        ({
            let then_state = after_events(state, events, window_ms);
            &&& then_state.follow_up
            &&& then_state.later == sources_of(events)
            &&& then_state.finished(at).running
            &&& then_state.finished(at).pending == sources_of(events)
            &&& !then_state.finished(at).follow_up
        }),
{
    during_a_pass(state, events, window_ms);
    assert(state.later + sources_of(events) =~= sources_of(events));
}

proof fn during_a_pass(state: RepoTriggers, events: Seq<(TriggerSource, Timestamp)>, window_ms: int)
    requires
        state.running,
    ensures
        after_events(state, events, window_ms) == (RepoTriggers {
            follow_up: state.follow_up || events.len() > 0,
            later: state.later + sources_of(events),
            ..state
        }),
    decreases events.len(),
{
    if events.len() == 0 {
        assert(state.later + sources_of(events) =~= state.later);
    } else {
        during_a_pass(state, events.drop_last(), window_ms);
        assert((state.later + sources_of(events.drop_last())).push(events.last().0) =~= state.later
            + sources_of(events));
    }
}

/// No event is lost: whatever the state, an event leaves a pass owed, after a window or after
/// the pass that is running, and that pass names it and every source that was waiting for it.
pub proof fn an_event_is_never_lost(
    state: RepoTriggers,
    source: TriggerSource,
    at: Timestamp,
    window_ms: int,
)
    ensures
        ({
            let next = state.after_event(source, at, window_ms);
            if state.running {
                next.running && next.follow_up && next.later == state.later.push(source) && next.pending
                    == state.pending
            } else {
                !next.running && next.opened is Some && next.pending == state.pending.push(source)
                    && next.later == state.later && next.follow_up == state.follow_up
            }
        }),
{
}

/// Every source reaches a pass: as long as none is handed out, whatever the times of the events,
/// the next pass names the sources of all of them in the order of their arrival, after those that
/// were waiting.
pub proof fn every_source_is_named(state: RepoTriggers, events: Seq<(TriggerSource, Timestamp)>, window_ms: int)
    requires
        !state.running,
    ensures
        !after_events(state, events, window_ms).running,
        after_events(state, events, window_ms).pending == state.pending + sources_of(events),
    decreases events.len(),
{
    if events.len() == 0 {
        assert(state.pending + sources_of(events) =~= state.pending);
    } else {
        every_source_is_named(state, events.drop_last(), window_ms);
        assert((state.pending + sources_of(events.drop_last())).push(events.last().0) =~= state.pending
            + sources_of(events));
    }
}

/// The state of one repository among several; idle when nothing has triggered it.
pub open spec fn state_of(repos: Map<i64, RepoTriggers>, id: i64) -> RepoTriggers {
    if repos.contains_key(id) {
        repos[id]
    } else {
        RepoTriggers::idle()
    }
}

/// The states of all repositories after an event for one of them: what [`TriggerBus::offer`]
/// leaves.
pub open spec fn after_offer(
    repos: Map<i64, RepoTriggers>,
    id: i64,
    source: TriggerSource,
    at: Timestamp,
    window_ms: int,
) -> Map<i64, RepoTriggers> {
    repos.insert(id, state_of(repos, id).after_event(source, at, window_ms))
}

/// Repositories share no window: an event for one leaves every other as it was, and of two events
/// for two repositories it does not matter which comes first.
pub proof fn each_repository_has_its_own_window(
    repos: Map<i64, RepoTriggers>,
    one: i64,
    other: i64,
    source: TriggerSource,
    other_source: TriggerSource,
    at: Timestamp,
    other_at: Timestamp,
    window_ms: int,
)
    requires
        one != other,
    ensures
        state_of(after_offer(repos, one, source, at, window_ms), other) == state_of(repos, other),
        after_offer(
            after_offer(repos, one, source, at, window_ms),
            other,
            other_source,
            other_at,
            window_ms,
        ) == after_offer(
            after_offer(repos, other, other_source, other_at, window_ms),
            one,
            source,
            at,
            window_ms,
        ),
{
    let first = after_offer(repos, one, source, at, window_ms);
    let second = after_offer(repos, other, other_source, other_at, window_ms);
    assert(state_of(first, other) == state_of(repos, other));
    assert(state_of(second, one) == state_of(repos, one));
    assert(after_offer(first, other, other_source, other_at, window_ms) =~= after_offer(
        second,
        one,
        source,
        at,
        window_ms,
    ));
}

/// Until when a window is open: for as long as it is set, counted from the event that opened it.
pub proof fn how_long_a_window_is_open(opened: Timestamp, later: Timestamp, window_ms: int)
    requires
        window_ms >= 0,
        later.nanos >= opened.nanos,
    ensures
        still_open(opened, later, window_ms) == (later.nanos - opened.nanos < window_ms * 1_000_000),
{
    let n = later.nanos - opened.nanos;
    assert((n / 1_000_000 < window_ms) == (n < window_ms * 1_000_000)) by (nonlinear_arith)
        requires
            n >= 0,
            window_ms >= 0,
    ;
}

/// What the bus says to an event: that it joins what follows the pass that runs, and whether it is
/// the first to; that it joins the window that is open, and as which; or that it opens one, and when
/// that closes.
pub proof fn what_an_event_is_told(state: RepoTriggers, repo_id: i64, at: Timestamp, window_ms: int)
    requires
        0 <= window_ms <= i64::MAX,
        at.in_calendar(),
        state.pending.len() < usize::MAX,
    ensures
        state.running ==> state.admission(repo_id, at, window_ms) == (Admission::Queued {
            repo_id,
            first: !state.follow_up,
        }),
        !state.running && state.opened is Some && still_open(state.opened->0, at, window_ms) ==> state.admission(
            repo_id,
            at,
            window_ms,
        ) == (Admission::Coalesced { repo_id, folded: (state.pending.len() + 1) as usize }),
        !state.running && (state.opened is None || !still_open(state.opened->0, at, window_ms)) ==> (state.admission(
            repo_id,
            at,
            window_ms,
        ) matches Admission::Scheduled { repo_id: id, due_at } && id == repo_id && due_at.nanos == at.nanos
            + window_ms * 1_000_000),
        state.admission(repo_id, at, window_ms).about() == repo_id,
{
}

/// When a pass is due: once the window that an event opened has closed, unless a pass is running.
/// While it runs nothing is due, and when it has finished what came meanwhile runs at once, and
/// otherwise nothing is left.
pub proof fn when_a_pass_is_due(state: RepoTriggers, now: Timestamp, window_ms: int)
    ensures
        state.is_due(now, window_ms) == (!state.running && state.pending.len() > 0 && state.opened is Some
            && !still_open(state.opened->0, now, window_ms)),
        !state.started().is_due(now, window_ms),
        state.started().pending == state.pending && state.started().later == state.later,
        state.follow_up ==> state.finished(now).running && state.finished(now).pending == state.later
            && state.finished(now).later.len() == 0 && !state.finished(now).follow_up,
        !state.follow_up ==> !state.finished(now).running && state.finished(now).pending.len() == 0 && state.finished(
            now,
        ).opened is None,
{
}

/// What is due begins to run, with what waits for it, and what is not stays as it is.
pub proof fn what_is_due_begins_to_run(state: RepoTriggers, now: Timestamp, window_ms: int)
    ensures
        state.is_due(now, window_ms) ==> state.if_due(now, window_ms).running && state.if_due(now, window_ms).pending
            == state.pending && state.if_due(now, window_ms).later == state.later,
        !state.is_due(now, window_ms) ==> state.if_due(now, window_ms) == state,
{
}

/// A window of more milliseconds than fit counts as one that closed before it opened.
pub proof fn a_window_too_long_to_count_is_closed(window_ms: int)
    requires
        0 <= window_ms <= u64::MAX,
    ensures
        window_ms <= i64::MAX ==> signed_window(window_ms) == window_ms,
        window_ms > i64::MAX ==> signed_window(window_ms) < 0,
{
}

} // verus!
