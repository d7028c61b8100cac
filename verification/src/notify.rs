//! Native notifications, and the limit that keeps them worth reading.
//!
//! # A rate limit is a cap, so it reports what it dropped
//!
//! A sweep over a year of history produces hundreds of notifications, and a person who is
//! shown hundreds learns to dismiss them unread. So there is a limit, and it counts what it
//! held back: the next notification that gets through says how many there were.
//!
//! # Deduplicating by fingerprint, not by message
//!
//! Two runs over the same unfixed bug produce two findings and one problem, and notifying
//! twice is telling somebody about a thing they already know.

use std::collections::VecDeque;

use vstd::prelude::*;

use crate::clock::{whole, whole_units, Timestamp, NANOS_PER_SEC};
use crate::model::Severity;
use crate::text::{cat2, cat3, cat4, count, decimal, decimal_int, decimal_int_tells, same, signed};

verus! {

/// How many notifications may be shown per window.
pub const PER_WINDOW: usize = 4;

/// The window the limit applies over, in seconds.
pub const WINDOW_SECS: i64 = 3_600;

/// The severity at or above which a finding is worth interrupting somebody for.
pub const NOTIFY_AT: Severity = Severity::High;

/// How many keys are remembered. The oldest falling out means that a finding nobody has seen
/// in a very long time can notify again.
pub const KEY_MEMORY: usize = 512;

/// Why somebody is to be interrupted.
#[derive(Clone, Debug, PartialEq, Eq)]
pub enum Reason {
    /// A finding at or above [`NOTIFY_AT`].
    Finding {
        /// How bad.
        severity: Severity,
        /// What makes it the same finding in another run.
        fingerprint: String,
        /// One line.
        title: String,
        /// Which repository.
        repo: String,
    },
    /// An action is waiting for a person.
    Approval {
        /// Which action.
        action_id: i64,
        /// Where it would go.
        target: String,
        /// What it would do.
        capability: String,
    },
}

impl Reason {
    /// The key two notifications must share to be the same notification: a finding's
    /// fingerprint, which survives a reword, or an action's number, because two actions that
    /// go the same place are two decisions.
    pub open spec fn identity(self) -> Seq<char> {
        match self {
            Self::Finding { fingerprint, .. } => "finding:"@ + fingerprint@,
            Self::Approval { action_id, .. } => "approval:"@ + decimal_int(action_id as int),
        }
    }

    /// Whether this is worth interrupting somebody for. Every approval is: one that nobody is
    /// told about waits until it expires.
    pub open spec fn matters(self) -> bool {
        match self {
            Self::Finding { severity, .. } => severity.level() >= NOTIFY_AT.level(),
            Self::Approval { .. } => true,
        }
    }

    /// The title a notification carries.
    pub open spec fn headline(self) -> Seq<char> {
        match self {
            Self::Finding { severity, repo, .. } => severity.word() + " finding in "@ + repo@,
            Self::Approval { .. } => "Waiting for your approval"@,
        }
    }

    /// The body a notification carries. An outbound action names its target.
    pub open spec fn message(self) -> Seq<char> {
        match self {
            Self::Finding { title, .. } => title@,
            Self::Approval { target, capability, .. } => capability@ + " → "@ + target@,
        }
    }

    /// The key two notifications must share to be the same notification.
    pub fn key(&self) -> (r: String)
        ensures
            r@ == self.identity(),
    {
        match self {
            Self::Finding { fingerprint, .. } => cat2("finding:", fingerprint.as_str()),
            Self::Approval { action_id, .. } => cat2("approval:", signed(*action_id).as_str()),
        }
    }

    /// Whether this is worth interrupting somebody for at all.
    pub fn is_worth_showing(&self) -> (r: bool)
        ensures
            r == self.matters(),
    {
        match self {
            Self::Finding { severity, .. } => severity.rank() >= NOTIFY_AT.rank(),
            Self::Approval { .. } => true,
        }
    }

    /// The title and body a notification carries.
    pub fn render(&self) -> (r: (String, String))
        ensures
            r.0@ == self.headline(),
            r.1@ == self.message(),
    {
        match self {
            Self::Finding { severity, title, repo, .. } => (
                cat3(severity.as_str(), " finding in ", repo.as_str()),
                title.clone(),
            ),
            Self::Approval { target, capability, .. } => (
                "Waiting for your approval".to_owned(),
                cat3(capability.as_str(), " → ", target.as_str()),
            ),
        }
    }
}

/// What to do about one reason.
#[derive(Clone, Debug, PartialEq, Eq)]
pub enum Decision {
    /// Show it.
    Show {
        /// The notification's title.
        title: String,
        /// Its body.
        body: String,
    },
    /// Show it, and say how many were held back while the limit was in force.
    Summarise {
        /// The notification's title.
        title: String,
        /// Its body, including the count that was suppressed.
        body: String,
        /// How many were suppressed since the last thing shown.
        suppressed: usize,
    },
    /// Not shown.
    Suppressed {
        /// Why: the limit, a duplicate, or not severe enough.
        reason: String,
    },
}

/// What a decision says.
pub enum Ruling {
    /// Shown.
    Show { title: Seq<char>, body: Seq<char> },
    /// Shown with a count.
    Summarise { title: Seq<char>, body: Seq<char>, suppressed: nat },
    /// Not shown.
    Suppressed { reason: Seq<char> },
}

impl View for Decision {
    type V = Ruling;

    open spec fn view(&self) -> Ruling {
        match *self {
            Decision::Show { title, body } => Ruling::Show { title: title@, body: body@ },
            Decision::Summarise { title, body, suppressed } => Ruling::Summarise {
                title: title@,
                body: body@,
                suppressed: suppressed as nat,
            },
            Decision::Suppressed { reason } => Ruling::Suppressed { reason: reason@ },
        }
    }
}

/// What a notifier remembers.
pub struct Memory {
    /// When each notification in the current window was shown, oldest first.
    pub shown: Seq<Timestamp>,
    /// Keys already notified about, newest last.
    pub seen: Seq<Seq<char>>,
    /// How many have been held back since the last one that got through.
    pub suppressed: nat,
}

/// Whether a notification shown at `shown` has left the window by `now`.
pub open spec fn has_aged(shown: Timestamp, now: Timestamp) -> bool {
    whole_units(now.nanos - shown.nanos, NANOS_PER_SEC as int) >= WINDOW_SECS
}

/// The notifications of the window that has not yet closed at `now`.
pub open spec fn recent(shown: Seq<Timestamp>, now: Timestamp) -> Seq<Timestamp>
    decreases shown.len(),
{
    if shown.len() > 0 && has_aged(shown[0], now) {
        recent(shown.drop_first(), now)
    } else {
        shown
    }
}

/// Keys with one more, the oldest gone when there were as many as are kept.
pub open spec fn remembering(seen: Seq<Seq<char>>, key: Seq<char>) -> Seq<Seq<char>> {
    if seen.len() >= KEY_MEMORY {
        seen.drop_first().push(key)
    } else {
        seen.push(key)
    }
}

impl Memory {
    /// What is decided about a reason at `now`.
    pub open spec fn ruling(self, reason: Reason, now: Timestamp) -> Ruling {
        if !reason.matters() {
            Ruling::Suppressed { reason: "below "@ + NOTIFY_AT.word() }
        } else if self.seen.contains(reason.identity()) {
            Ruling::Suppressed { reason: "already notified about this one"@ }
        } else if recent(self.shown, now).len() >= PER_WINDOW {
            Ruling::Suppressed {
                reason: "the last "@ + decimal(PER_WINDOW as nat)
                    + " notifications were within the hour; "@ + decimal(self.suppressed + 1)
                    + " held back so far"@,
            }
        } else if self.suppressed > 0 {
            Ruling::Summarise {
                title: reason.headline(),
                body: reason.message() + "\n\nand "@ + decimal(self.suppressed)
                    + " more while notifications were limited"@,
                suppressed: self.suppressed,
            }
        } else {
            Ruling::Show { title: reason.headline(), body: reason.message() }
        }
    }

    /// What is remembered once a reason has been decided about.
    ///
    /// One that was never going to be shown is not counted as held back, and one that was held
    /// back is remembered, so that raising it again does not count it again.
    pub open spec fn after(self, reason: Reason, now: Timestamp) -> Memory {
        if !reason.matters() || self.seen.contains(reason.identity()) {
            self
        } else if recent(self.shown, now).len() >= PER_WINDOW {
            Memory {
                shown: recent(self.shown, now),
                seen: remembering(self.seen, reason.identity()),
                suppressed: self.suppressed + 1,
            }
        } else {
            Memory {
                shown: recent(self.shown, now).push(now),
                seen: remembering(self.seen, reason.identity()),
                suppressed: 0,
            }
        }
    }

    /// Whether a reason gets through.
    pub open spec fn lets_through(self, reason: Reason, now: Timestamp) -> bool {
        !(self.ruling(reason, now) is Suppressed)
    }
}

/// Decides what to show, and remembers enough to be honest about the rest.
#[derive(Debug)]
pub struct Notifier {
    shown: VecDeque<Timestamp>,
    seen: VecDeque<String>,
    suppressed: usize,
}

impl View for Notifier {
    type V = Memory;

    closed spec fn view(&self) -> Memory {
        Memory {
            shown: self.shown@,
            seen: self.seen@.map_values(|s: String| s@),
            suppressed: self.suppressed as nat,
        }
    }
}

impl Notifier {
    /// Whether the limit has been kept, by a clock that the calendar has.
    pub open spec fn wf(self) -> bool {
        &&& self@.shown.len() <= PER_WINDOW
        &&& forall|i: int| 0 <= i < self@.shown.len() ==> (#[trigger] self@.shown[i]).in_calendar()
    }

    /// A notifier that has shown nothing.
    pub fn new() -> (r: Notifier)
        ensures
            r.wf(),
            r@.shown == Seq::<Timestamp>::empty(),
            r@.seen == Seq::<Seq<char>>::empty(),
            r@.suppressed == 0,
    {
        let r = Notifier { shown: VecDeque::new(), seen: VecDeque::new(), suppressed: 0 };
        assert(r@.seen =~= Seq::<Seq<char>>::empty());
        r
    }

    /// How many have been held back since the last notification got through.
    pub fn pending_suppressed(&self) -> (r: usize)
        ensures
            r == self@.suppressed,
    {
        self.suppressed
    }

    fn knows(&self, key: &str) -> (r: bool)
        ensures
            r == self@.seen.contains(key@),
    {
        let mut i: usize = 0;
        while i < self.seen.len()
            invariant
                i <= self.seen@.len(),
                forall|j: int| 0 <= j < i ==> #[trigger] self@.seen[j] != key@,
            decreases self.seen.len() - i,
        {
            if same(self.seen[i].as_str(), key) {
                assert(self@.seen[i as int] == key@);
                return true;
            }
            i += 1;
        }
        false
    }

    /// Drop the record of notifications older than the window.
    fn expire(&mut self, now: Timestamp)
        requires
            old(self).wf(),
            now.in_calendar(),
        ensures
            final(self).wf(),
            final(self)@ == (Memory { shown: recent(old(self)@.shown, now), ..old(self)@ }),
    {
        let ghost start = self@.shown;
        while self.shown.len() > 0
            invariant_except_break
                recent(start, now) == recent(self.shown@, now),
            invariant
                self.wf(),
                now.in_calendar(),
                self@.seen == old(self)@.seen,
                self@.suppressed == old(self)@.suppressed,
            ensures
                self.shown@ == recent(start, now),
            decreases self.shown.len(),
        {
            let oldest: Timestamp = self.shown[0];
            assert(self@.shown[0].in_calendar());
            if whole(now.since(oldest), NANOS_PER_SEC) >= WINDOW_SECS as i128 {
                let ghost before = self.shown@;
                let _ = self.shown.pop_front();
                proof {
                    assert(self.shown@ =~= before.drop_first());
                    assert forall|i: int| 0 <= i < self@.shown.len() implies (
                    #[trigger] self@.shown[i]).in_calendar() by {
                        assert(self@.shown[i] == before[i + 1]);
                    }
                }
            } else {
                break;
            }
        }
    }

    fn remember(&mut self, key: String)
        ensures
            final(self)@ == (Memory { seen: remembering(old(self)@.seen, key@), ..old(self)@ }),
    {
        let ghost a = self.seen@;
        if self.seen.len() >= KEY_MEMORY {
            let _ = self.seen.pop_front();
        }
        self.seen.push_back(key);
        assert(self@.seen =~= remembering(old(self)@.seen, key@));
    }

    /// Decide what to do with one reason, at `now`.
    pub fn consider(&mut self, reason: &Reason, now: Timestamp) -> (r: Decision)
        requires
            old(self).wf(),
            now.in_calendar(),
            old(self)@.suppressed < usize::MAX,
        ensures
            final(self).wf(),
            r@ == old(self)@.ruling(*reason, now),
            final(self)@ == old(self)@.after(*reason, now),
    {
        if !reason.is_worth_showing() {
            return Decision::Suppressed { reason: cat2("below ", NOTIFY_AT.as_str()) };
        }
        let key = reason.key();
        if self.knows(key.as_str()) {
            return Decision::Suppressed { reason: "already notified about this one".to_owned() };
        }
        self.expire(now);
        if self.shown.len() >= PER_WINDOW {
            self.suppressed = self.suppressed + 1;
            self.remember(key);
            let mut why = cat4(
                "the last ",
                count(PER_WINDOW).as_str(),
                " notifications were within the hour; ",
                count(self.suppressed).as_str(),
            );
            why.append(" held back so far");
            return Decision::Suppressed { reason: why };
        }
        let (title, body) = reason.render();
        let ghost before = self@.shown;
        self.shown.push_back(now);
        proof {
            assert forall|i: int| 0 <= i < self@.shown.len() implies (#[trigger] self@.shown[i]).in_calendar() by {
                if i < before.len() {
                    assert(self@.shown[i] == before[i]);
                }
            }
        }
        self.remember(key);
        if self.suppressed > 0 {
            let held: usize = self.suppressed;
            self.suppressed = 0;
            return Decision::Summarise {
                title,
                body: cat4(
                    body.as_str(),
                    "\n\nand ",
                    count(held).as_str(),
                    " more while notifications were limited",
                ),
                suppressed: held,
            };
        }
        Decision::Show { title, body }
    }
}

impl Default for Notifier {
    /// A notifier that has shown nothing.
    fn default() -> (r: Notifier)
        ensures
            r.wf(),
            r@.shown == Seq::<Timestamp>::empty(),
            r@.seen == Seq::<Seq<char>>::empty(),
            r@.suppressed == 0,
    {
        Notifier::new()
    }
}

/// What the tray says about the daemon right now.
#[derive(Clone, Copy, Debug, PartialEq, Eq, Structural)]
pub enum TrayStatus {
    /// Reviewing normally.
    Running,
    /// Paused: nothing is being reviewed and publish actions are held.
    Paused,
}

impl TrayStatus {
    /// Which state a paused flag means.
    pub fn of(paused: bool) -> (r: TrayStatus)
        ensures
            r == if paused {
                TrayStatus::Paused
            } else {
                TrayStatus::Running
            },
    {
        if paused {
            TrayStatus::Paused
        } else {
            TrayStatus::Running
        }
    }

    /// The tooltip the tray icon carries. The state is in the text, because a change of shade
    /// is a signal people stop noticing.
    pub fn tooltip(self) -> (r: &'static str)
        ensures
            r@ == match self {
                TrayStatus::Running => "rev-local — reviewing"@,
                TrayStatus::Paused => "rev-local — PAUSED, nothing is being reviewed"@,
            },
    {
        match self {
            TrayStatus::Running => "rev-local — reviewing",
            TrayStatus::Paused => "rev-local — PAUSED, nothing is being reviewed",
        }
    }
}

// --- what holds of every notifier ---

/// What is remembered after a series of reasons, each with its time.
pub open spec fn after_all(memory: Memory, events: Seq<(Reason, Timestamp)>) -> Memory
    decreases events.len(),
{
    if events.len() == 0 {
        memory
    } else {
        after_all(memory, events.drop_last()).after(events.last().0, events.last().1)
    }
}

/// How many of a series of reasons get through.
pub open spec fn let_through(memory: Memory, events: Seq<(Reason, Timestamp)>) -> nat
    decreases events.len(),
{
    if events.len() == 0 {
        0
    } else {
        let_through(memory, events.drop_last()) + if after_all(memory, events.drop_last()).lets_through(
            events.last().0,
            events.last().1,
        ) {
            1nat
        } else {
            0
        }
    }
}

/// A notifier that has shown nothing.
pub open spec fn fresh() -> Memory {
    Memory { shown: Seq::empty(), seen: Seq::empty(), suppressed: 0 }
}

/// Whether a series of events falls within one window: none has aged by the time of a later
/// one.
pub open spec fn in_one_window(events: Seq<(Reason, Timestamp)>) -> bool {
    forall|i: int, j: int|
        0 <= i <= j < events.len() ==> !has_aged((#[trigger] events[i]).1, (#[trigger] events[j]).1)
}

/// However many reasons come up within one window, no more than [`PER_WINDOW`] get through.
pub proof fn no_more_than_the_limit_get_through(events: Seq<(Reason, Timestamp)>)
    requires
        in_one_window(events),
    ensures
        let_through(fresh(), events) <= PER_WINDOW,
{
    window_count(events);
}

proof fn window_count(events: Seq<(Reason, Timestamp)>)
    requires
        in_one_window(events),
    ensures
        after_all(fresh(), events).shown.len() == let_through(fresh(), events),
        let_through(fresh(), events) <= PER_WINDOW,
        forall|i: int|
            0 <= i < after_all(fresh(), events).shown.len() ==> exists|k: int|
                0 <= k < events.len() && (#[trigger] events[k]).1 == #[trigger] after_all(
                    fresh(),
                    events,
                ).shown[i],
    decreases events.len(),
{
    if events.len() > 0 {
        let before = events.drop_last();
        assert forall|i: int, j: int| 0 <= i <= j < before.len() implies !has_aged(
            (#[trigger] before[i]).1,
            (#[trigger] before[j]).1,
        ) by {
            assert(before[i] == events[i]);
            assert(before[j] == events[j]);
        }
        window_count(before);
        let memory = after_all(fresh(), before);
        let (reason, now) = events.last();
        assert(recent(memory.shown, now) == memory.shown) by {
            if memory.shown.len() > 0 {
                let first = memory.shown[0];
                let k = choose|k: int| 0 <= k < before.len() && (#[trigger] before[k]).1 == first;
                assert(before[k] == events[k]);
                assert(!has_aged(events[k].1, events[events.len() - 1].1));
            }
        }
        let next = memory.after(reason, now);
        assert forall|i: int| 0 <= i < next.shown.len() implies exists|k: int|
            0 <= k < events.len() && (#[trigger] events[k]).1 == #[trigger] next.shown[i] by {
            if i < memory.shown.len() {
                assert(next.shown[i] == memory.shown[i]);
                let k = choose|k: int|
                    0 <= k < before.len() && (#[trigger] before[k]).1 == memory.shown[i];
                assert(events[k] == before[k]);
            } else {
                assert(events[events.len() - 1].1 == next.shown[i]);
            }
        }
    }
}

/// Nothing is held back in silence: a reason that matters and is new either gets through,
/// with the count of all that were held back before it, or is counted itself.
pub proof fn what_is_held_back_is_counted(memory: Memory, reason: Reason, now: Timestamp)
    requires
        reason.matters(),
        !memory.seen.contains(reason.identity()),
    ensures
        if memory.lets_through(reason, now) {
            &&& memory.after(reason, now).suppressed == 0
            &&& memory.suppressed > 0 ==> memory.ruling(reason, now) is Summarise && memory.ruling(
                reason,
                now,
            )->suppressed == memory.suppressed
        } else {
            memory.after(reason, now).suppressed == memory.suppressed + 1
        },
{
}

/// The same reason twice is told once: what has just been considered is not shown again.
pub proof fn the_same_reason_is_told_once(memory: Memory, reason: Reason, now: Timestamp, later: Timestamp)
    requires
        reason.matters(),
    ensures
        !memory.after(reason, now).lets_through(reason, later),
        memory.after(reason, now).after(reason, later) == memory.after(reason, now),
{
    let next = memory.after(reason, now);
    if !memory.seen.contains(reason.identity()) {
        assert(next.seen.last() == reason.identity());
        assert(next.seen[next.seen.len() - 1] == reason.identity());
    }
}

/// The limit rolls rather than locking out: once every notification of the window has aged,
/// what matters and is new gets through.
pub proof fn the_window_rolls(memory: Memory, reason: Reason, now: Timestamp)
    requires
        reason.matters(),
        !memory.seen.contains(reason.identity()),
        forall|i: int| 0 <= i < memory.shown.len() ==> has_aged(#[trigger] memory.shown[i], now),
    ensures
        memory.lets_through(reason, now),
{
    all_aged(memory.shown, now);
}

proof fn all_aged(shown: Seq<Timestamp>, now: Timestamp)
    requires
        forall|i: int| 0 <= i < shown.len() ==> has_aged(#[trigger] shown[i], now),
    ensures
        recent(shown, now).len() == 0,
    decreases shown.len(),
{
    if shown.len() > 0 {
        assert(has_aged(shown[0], now));
        assert forall|i: int| 0 <= i < shown.drop_first().len() implies has_aged(
            #[trigger] shown.drop_first()[i],
            now,
        ) by {
            assert(shown.drop_first()[i] == shown[i + 1]);
        }
        all_aged(shown.drop_first(), now);
    }
}

/// What is worth a notification: a finding that is high or critical, and anything that waits for a
/// person.
pub proof fn what_is_worth_a_notification(reason: Reason)
    ensures
        reason matches Reason::Finding { severity, .. } ==> reason.matters() == (severity == Severity::High
            || severity == Severity::Critical),
        reason is Approval ==> reason.matters(),
{
}

/// What is the same reason: a finding is told by its fingerprint, whatever else is said of it, and
/// what waits for a person by its number; neither is ever taken for the other.
pub proof fn what_is_the_same_reason(a: Reason, b: Reason)
    ensures
        (a.identity() == b.identity()) == match (a, b) {
            (Reason::Finding { fingerprint, .. }, Reason::Finding { fingerprint: other, .. }) => fingerprint@
                == other@,
            (Reason::Approval { action_id, .. }, Reason::Approval { action_id: other, .. }) => action_id == other,
            _ => false,
        },
{
    reveal_strlit("finding:");
    reveal_strlit("approval:");
    let s = a.identity();
    let t = b.identity();
    match (a, b) {
        (Reason::Finding { fingerprint, .. }, Reason::Finding { fingerprint: other, .. }) => {
            assert(s.skip(8) =~= fingerprint@);
            assert(t.skip(8) =~= other@);
        },
        (Reason::Approval { action_id, .. }, Reason::Approval { action_id: other, .. }) => {
            assert(s.skip(9) =~= decimal_int(action_id as int));
            assert(t.skip(9) =~= decimal_int(other as int));
            if s == t {
                decimal_int_tells(action_id as int, other as int);
            }
        },
        (Reason::Finding { .. }, Reason::Approval { .. }) => {
            assert(s[0] == 'f' && t[0] == 'a');
        },
        (Reason::Approval { .. }, Reason::Finding { .. }) => {
            assert(s[0] == 'a' && t[0] == 'f');
        },
    }
}

/// A notification says what it is about: a finding's title, how bad it is and where, or what would
/// be done at which target.
pub proof fn a_notification_says_what_it_is_about(reason: Reason)
    ensures
        match reason {
            Reason::Finding { severity, title, repo, .. } => reason.message() == title@ && severity.word().is_prefix_of(
                reason.headline(),
            ) && repo@.is_suffix_of(reason.headline()),
            Reason::Approval { target, capability, .. } => capability@.is_prefix_of(reason.message())
                && target@.is_suffix_of(reason.message()),
        },
{
    match reason {
        Reason::Finding { severity, repo, .. } => {
            let all = reason.headline();
            assert(all.subrange(0, severity.word().len() as int) =~= severity.word());
            assert(all.subrange(all.len() - repo@.len(), all.len() as int) =~= repo@);
        },
        Reason::Approval { target, capability, .. } => {
            let all = reason.message();
            assert(all.subrange(0, capability@.len() as int) =~= capability@);
            assert(all.subrange(all.len() - target@.len(), all.len() as int) =~= target@);
        },
    }
}

/// When a notification no longer counts: an hour after it was shown.
pub proof fn a_notification_counts_for_an_hour(shown: Timestamp, now: Timestamp)
    ensures
        has_aged(shown, now) == (now.nanos - shown.nanos >= 3_600 * 1_000_000_000),
{
    let n = now.nanos - shown.nanos;
    let unit = 1_000_000_000int;
    assert(unit == NANOS_PER_SEC as int);
    assert(n >= 0 ==> (n / unit >= 3_600) == (n >= 3_600 * unit)) by (nonlinear_arith)
        requires
            unit == 1_000_000_000,
    ;
    assert(n < 0 ==> -((-n) / unit) <= 0) by (nonlinear_arith)
        requires
            unit == 1_000_000_000,
    ;
}

/// What decides whether a reason gets through: that it matters, that it is new, and that fewer than
/// four that were shown still count. What gets through is shown in its own words.
pub proof fn what_gets_through(memory: Memory, reason: Reason, now: Timestamp)
    ensures
        memory.lets_through(reason, now) == (reason.matters() && !memory.seen.contains(reason.identity()) && recent(
            memory.shown,
            now,
        ).len() < 4),
        memory.ruling(reason, now) matches Ruling::Show { title, body } ==> title == reason.headline() && body
            == reason.message() && memory.suppressed == 0,
        memory.ruling(reason, now) matches Ruling::Summarise { title, body, suppressed } ==> title
            == reason.headline() && reason.message().is_prefix_of(body) && suppressed == memory.suppressed
            && memory.suppressed > 0,
        memory.lets_through(reason, now) ==> memory.after(reason, now).shown == recent(memory.shown, now).push(now),
        !memory.lets_through(reason, now) && memory.seen.contains(reason.identity()) ==> memory.after(reason, now)
            == memory,
        memory.lets_through(reason, now) ==> memory.after(reason, now).seen.last() == reason.identity(),
{
    let body = reason.message() + "\n\nand "@ + decimal(memory.suppressed) + " more while notifications were limited"@;
    assert(body.subrange(0, reason.message().len() as int) =~= reason.message());
}

/// Of what was shown, as much counts as has not aged: what is left begins with one that has not,
/// and nothing but what has aged is gone.
pub proof fn what_counts_is_what_has_not_aged(shown: Seq<Timestamp>, now: Timestamp)
    ensures
        recent(shown, now).is_suffix_of(shown),
        recent(shown, now).len() > 0 ==> !has_aged(recent(shown, now)[0], now),
        forall|i: int|
            0 <= i < shown.len() - recent(shown, now).len() ==> has_aged(#[trigger] shown[i], now),
    decreases shown.len(),
{
    if shown.len() > 0 && has_aged(shown[0], now) {
        let rest = shown.drop_first();
        what_counts_is_what_has_not_aged(rest, now);
        let left = recent(shown, now);
        assert(shown.subrange(shown.len() - left.len(), shown.len() as int) =~= rest.subrange(
            rest.len() - left.len(),
            rest.len() as int,
        ));
        assert forall|i: int| 0 <= i < shown.len() - left.len() implies has_aged(#[trigger] shown[i], now) by {
            if i > 0 {
                assert(rest[i - 1] == shown[i]);
            }
        }
    } else {
        assert(shown.subrange(0, shown.len() as int) =~= shown);
    }
}

/// What was told is remembered, and so are the last five hundred and eleven before it.
pub proof fn what_was_told_is_remembered(seen: Seq<Seq<char>>, key: Seq<char>, i: int)
    requires
        seen.len() <= 512,
    ensures
        remembering(seen, key).len() <= 512,
        remembering(seen, key).contains(key),
        0 <= i < seen.len() && seen.len() - i <= 511 ==> remembering(seen, key).contains(seen[i]),
{
    let all = remembering(seen, key);
    assert(all[all.len() - 1] == key);
    if 0 <= i < seen.len() && seen.len() - i <= 511 {
        if seen.len() >= 512 {
            assert(all[i - 1] == seen[i]);
        } else {
            assert(all[i] == seen[i]);
        }
    }
}

} // verus!
