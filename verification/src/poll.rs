//! Poll scheduling: clamping, jitter, backoff and health.
//!
//! # A polling interval is a promise to somebody else's server
//!
//! A value below the floor is clamped and said out loud: honouring it gets the user's account
//! rate-limited, and rejecting it makes a typo stop the daemon.
//!
//! # Jitter is derived, not random
//!
//! Twenty repositories on one interval must not all poll on the same second forever. The
//! offset is a fixed function of the repository and the poll number, so that a schedule can be
//! reproduced.
//!
//! # Backing off is not the same as giving up
//!
//! A repository whose remote is unreachable backs off and says so. It does not stop, and the
//! first success returns it to its normal interval at once.

use vstd::prelude::*;

use crate::text::{cat6, decimal, num, opt_text, stands_inside, texts, within};

verus! {

/// The enforced floor.
pub const MIN_POLL_INTERVAL_SECS: u64 = 30;

/// The default interval.
pub const DEFAULT_POLL_INTERVAL_SECS: u64 = 120;

/// The ceiling for backoff.
pub const MAX_BACKOFF_SECS: u64 = 1_800;

/// How a repository's polling is going.
#[derive(Clone, Copy, Debug, PartialEq, Eq, Structural)]
pub enum RepoHealth {
    /// Polling normally.
    Healthy,
    /// Consecutive failures; backed off and still trying.
    Degraded,
}

impl RepoHealth {
    /// How this reads.
    pub open spec fn word(self) -> Seq<char> {
        match self {
            Self::Healthy => "healthy"@,
            Self::Degraded => "degraded"@,
        }
    }

    /// How this reads.
    pub fn as_str(self) -> (r: &'static str)
        ensures
            r@ == self.word(),
    {
        match self {
            Self::Healthy => "healthy",
            Self::Degraded => "degraded",
        }
    }
}

/// A configured interval, and whether it was the one that was asked for.
#[derive(Clone, Debug, PartialEq, Eq)]
pub struct PollInterval {
    /// The interval actually used.
    pub secs: u64,
    /// What to tell the user, when the configured value was not honoured.
    pub warning: Option<String>,
}

/// What the user is told when an interval is raised to the floor.
pub open spec fn clamp_warning(configured: u64) -> Seq<char> {
    let floor = decimal(MIN_POLL_INTERVAL_SECS as nat);
    "poll_interval_secs = "@ + decimal(configured as nat) + " is below the "@ + floor
        + "s minimum (SPEC §7.1) and was raised to "@ + floor
        + "s; polling faster than this gets the account rate-limited"@
}

impl PollInterval {
    /// Clamp a configured interval to the floor, reporting it if it moved.
    pub fn clamp(configured: u64) -> (r: PollInterval)
        ensures
            r.secs == if configured < MIN_POLL_INTERVAL_SECS {
                MIN_POLL_INTERVAL_SECS
            } else {
                configured
            },
            opt_text(r.warning) == if configured < MIN_POLL_INTERVAL_SECS {
                Some(clamp_warning(configured))
            } else {
                None
            },
    {
        if configured < MIN_POLL_INTERVAL_SECS {
            let floor = num(MIN_POLL_INTERVAL_SECS);
            let mut warning = cat6(
                "poll_interval_secs = ",
                num(configured).as_str(),
                " is below the ",
                floor.as_str(),
                "s minimum (SPEC §7.1) and was raised to ",
                floor.as_str(),
            );
            warning.append("s; polling faster than this gets the account rate-limited");
            return PollInterval { secs: MIN_POLL_INTERVAL_SECS, warning: Some(warning) };
        }
        PollInterval { secs: configured, warning: None }
    }

    /// Whether the configured value was changed.
    pub fn was_clamped(&self) -> (r: bool)
        ensures
            r == (self.warning is Some),
    {
        self.warning.is_some()
    }
}

impl Default for PollInterval {
    /// The default interval.
    fn default() -> (r: PollInterval)
        ensures
            r.secs == DEFAULT_POLL_INTERVAL_SECS,
            r.warning is None,
    {
        PollInterval::clamp(DEFAULT_POLL_INTERVAL_SECS)
    }
}

/// A number doubled so many times.
pub open spec fn doubled(n: nat, times: nat) -> nat
    decreases times,
{
    if times == 0 {
        n
    } else {
        2 * doubled(n, (times - 1) as nat)
    }
}

/// The delay before the next poll, before jitter: doubled for each consecutive failure, up to
/// the ceiling.
pub open spec fn backoff(secs: u64, failures: u32) -> nat {
    let times = if failures < 16 {
        failures as nat
    } else {
        16
    };
    if doubled(secs as nat, times) < MAX_BACKOFF_SECS {
        doubled(secs as nat, times)
    } else {
        MAX_BACKOFF_SECS as nat
    }
}

/// One repository's polling state.
#[derive(Clone, Debug, PartialEq, Eq)]
pub struct PollSchedule {
    /// Which repository.
    pub repo_id: i64,
    /// The clamped interval.
    pub interval: PollInterval,
    /// How many polls have been attempted, used to vary the jitter.
    pub polls: u64,
    /// Consecutive failures. Zero when healthy.
    pub consecutive_failures: u32,
    /// The last failure's message.
    pub last_error: Option<String>,
}

impl PollSchedule {
    /// A schedule at `configured` seconds, clamped.
    pub fn new(repo_id: i64, configured: u64) -> (r: PollSchedule)
        ensures
            r.repo_id == repo_id,
            r.interval.secs == if configured < MIN_POLL_INTERVAL_SECS {
                MIN_POLL_INTERVAL_SECS
            } else {
                configured
            },
            opt_text(r.interval.warning) == if configured < MIN_POLL_INTERVAL_SECS {
                Some(clamp_warning(configured))
            } else {
                None
            },
            r.polls == 0,
            r.consecutive_failures == 0,
            r.last_error is None,
    {
        PollSchedule {
            repo_id,
            interval: PollInterval::clamp(configured),
            polls: 0,
            consecutive_failures: 0,
            last_error: None,
        }
    }

    /// How polling is going.
    pub open spec fn condition(self) -> RepoHealth {
        if self.consecutive_failures > 0 {
            RepoHealth::Degraded
        } else {
            RepoHealth::Healthy
        }
    }

    /// How polling is going.
    pub fn health(&self) -> (r: RepoHealth)
        ensures
            r == self.condition(),
    {
        if self.consecutive_failures > 0 {
            RepoHealth::Degraded
        } else {
            RepoHealth::Healthy
        }
    }

    /// The delay before the next poll in seconds, before jitter.
    pub fn base_delay(&self) -> (r: u64)
        ensures
            r == backoff(self.interval.secs, self.consecutive_failures),
    {
        let times: u32 = if self.consecutive_failures < 16 {
            self.consecutive_failures
        } else {
            16
        };
        let mut delay: u128 = self.interval.secs as u128;
        let mut i: u32 = 0;
        proof {
            reveal_with_fuel(doubled, 17);
        }
        while i < times
            invariant
                i <= times <= 16,
                delay == doubled(self.interval.secs as nat, i as nat),
                delay <= 0x1_0000_0000_0000_0000 * 0x1_0000,
                delay <= doubled(0xffff_ffff_ffff_ffff, i as nat),
                doubled(0xffff_ffff_ffff_ffff, 16) <= 0x1_0000_0000_0000_0000 * 0x1_0000,
            decreases times - i,
        {
            proof {
                doubling_grows(0xffff_ffff_ffff_ffff, (i + 1) as nat, 16);
            }
            delay = delay * 2;
            i += 1;
        }
        if delay < MAX_BACKOFF_SECS as u128 {
            delay as u64
        } else {
            MAX_BACKOFF_SECS
        }
    }

    /// Record a successful poll. Recovery is immediate and total.
    pub fn succeeded(&mut self)
        ensures
            final(self).repo_id == old(self).repo_id,
            final(self).interval == old(self).interval,
            final(self).polls == if old(self).polls < u64::MAX {
                (old(self).polls + 1) as u64
            } else {
                old(self).polls
            },
            final(self).consecutive_failures == 0,
            final(self).last_error is None,
    {
        self.polls = self.polls.saturating_add(1);
        self.consecutive_failures = 0;
        self.last_error = None;
    }

    /// Record a failed poll.
    pub fn failed(&mut self, error: &str)
        ensures
            final(self).repo_id == old(self).repo_id,
            final(self).interval == old(self).interval,
            final(self).polls == if old(self).polls < u64::MAX {
                (old(self).polls + 1) as u64
            } else {
                old(self).polls
            },
            final(self).consecutive_failures == if old(self).consecutive_failures < u32::MAX {
                (old(self).consecutive_failures + 1) as u32
            } else {
                old(self).consecutive_failures
            },
            opt_text(final(self).last_error) == Some(error@),
    {
        self.polls = self.polls.saturating_add(1);
        self.consecutive_failures = self.consecutive_failures.saturating_add(1);
        self.last_error = Some(error.to_owned());
    }

    /// What is reported for this repository, given how long it is until the next poll.
    pub fn health_report(&self, repo_name: &str, next_poll_in_secs: u64) -> (r: HealthReport)
        ensures
            r.repo@ == repo_name@,
            r.health == self.condition(),
            r.poll_interval_secs == self.interval.secs,
            r.configured_interval_clamped == (self.interval.warning is Some),
            r.next_poll_in_secs == next_poll_in_secs,
            r.consecutive_failures == self.consecutive_failures,
            opt_text(r.last_error) == opt_text(self.last_error),
            texts(r.notes@) == match opt_text(self.interval.warning) {
                Some(warning) => seq![warning],
                None => Seq::empty(),
            },
    {
        let mut notes: Vec<String> = Vec::new();
        if let Some(warning) = &self.interval.warning {
            notes.push(warning.clone());
        }
        assert(texts(notes@) =~= match opt_text(self.interval.warning) {
            Some(warning) => seq![warning],
            None => Seq::empty(),
        });
        HealthReport {
            repo: repo_name.to_owned(),
            health: self.health(),
            poll_interval_secs: self.interval.secs,
            configured_interval_clamped: self.interval.was_clamped(),
            next_poll_in_secs,
            consecutive_failures: self.consecutive_failures,
            last_error: self.last_error.clone(),
            notes,
        }
    }
}

/// The machine-readable health of one repository.
#[derive(Clone, Debug, PartialEq, Eq)]
pub struct HealthReport {
    /// The repository's name.
    pub repo: String,
    /// How polling is going.
    pub health: RepoHealth,
    /// The interval in force, after clamping.
    pub poll_interval_secs: u64,
    /// Whether the configured interval was raised to the floor.
    pub configured_interval_clamped: bool,
    /// Roughly how long until the next poll, jitter included.
    pub next_poll_in_secs: u64,
    /// How many polls have failed in a row.
    pub consecutive_failures: u32,
    /// The most recent failure, if any.
    pub last_error: Option<String>,
    /// Anything the user should know, such as a clamped interval.
    pub notes: Vec<String>,
}

/// A product of 64-bit numbers, wrapped to 64 bits.
pub open spec fn wrapped_product(a: u64, b: u64) -> u64 {
    ((a * b) % 0x1_0000_0000_0000_0000) as u64
}

/// A sum of 64-bit numbers, wrapped to 64 bits.
pub open spec fn wrapped_sum(a: u64, b: u64) -> u64 {
    ((a + b) % 0x1_0000_0000_0000_0000) as u64
}

/// The finaliser of splitmix64, on a repository and a poll number: a fixed mixer, the same on
/// every machine and in every version.
pub open spec fn mixed(repo_id: u64, poll: u64) -> u64 {
    let a = wrapped_sum(wrapped_product(repo_id, 0x9E37_79B9_7F4A_7C15), poll);
    let b = wrapped_product(a ^ (a >> 30), 0xBF58_476D_1CE4_E5B9);
    let c = wrapped_product(b ^ (b >> 27), 0x94D0_49BB_1331_11EB);
    c ^ (c >> 31)
}

/// How far into its jitter a poll falls, of `2^53` equal steps: as many as a double holds
/// exactly.
pub fn jitter_steps(repo_id: i64, poll: u64) -> (r: u64)
    ensures
        r == mixed(repo_id as u64, poll) >> 11,
        r < 0x20_0000_0000_0000,
{
    let id: u64 = #[verifier::truncate]
    (repo_id as u64);
    let a: u64 = id.wrapping_mul(0x9E37_79B9_7F4A_7C15).wrapping_add(poll);
    let b: u64 = (a ^ (a >> 30)).wrapping_mul(0xBF58_476D_1CE4_E5B9);
    let c: u64 = (b ^ (b >> 27)).wrapping_mul(0x94D0_49BB_1331_11EB);
    let z: u64 = c ^ (c >> 31);
    assert(z >> 11 < 0x20_0000_0000_0000) by (bit_vector);
    z >> 11
}

// --- what holds of every schedule ---

/// Doubling more often gives no less.
proof fn doubling_grows(n: nat, a: nat, b: nat)
    requires
        a <= b,
    ensures
        doubled(n, a) <= doubled(n, b),
    decreases b,
{
    if a < b {
        doubling_grows(n, a, (b - 1) as nat);
    }
}

/// Backing off never stops a repository, and never waits longer than the ceiling: the delay is
/// the interval at the least, where that is below the ceiling, and grows with each failure.
pub proof fn backing_off_is_bounded(secs: u64, failures: u32, more: u32)
    requires
        failures <= more,
    ensures
        backoff(secs, failures) <= backoff(secs, more) <= MAX_BACKOFF_SECS,
        secs <= MAX_BACKOFF_SECS ==> backoff(secs, failures) >= secs,
{
    let a = if failures < 16 {
        failures as nat
    } else {
        16
    };
    let b = if more < 16 {
        more as nat
    } else {
        16
    };
    doubling_grows(secs as nat, a, b);
    doubling_grows(secs as nat, 0, a);
}

/// A healthy repository polls at its own interval, up to the ceiling.
pub proof fn success_returns_to_the_interval(secs: u64)
    requires
        secs <= MAX_BACKOFF_SECS,
    ensures
        backoff(secs, 0) == secs,
{
}

/// How long the wait is: the interval, doubled with each failure in a row, and never more than half
/// an hour.
pub proof fn each_failure_doubles_the_wait(secs: u64, failures: u32)
    ensures
        backoff(secs, 0) == if secs < 1_800 {
            secs as nat
        } else {
            1_800
        },
        failures < 16 ==> backoff(secs, (failures + 1) as u32) == if 2 * backoff(secs, failures) < 1_800 {
            2 * backoff(secs, failures)
        } else {
            1_800
        },
        16 <= failures < u32::MAX ==> backoff(secs, (failures + 1) as u32) == backoff(secs, failures),
        backoff(secs, failures) <= 1_800,
{
    assert(doubled(secs as nat, 0) == secs);
    if failures < 16 {
        assert(doubled(secs as nat, (failures + 1) as nat) == 2 * doubled(secs as nat, failures as nat));
    }
}

/// A repository is degraded from its first failure until it succeeds again.
pub proof fn a_failure_degrades(schedule: PollSchedule)
    ensures
        schedule.condition() == RepoHealth::Degraded <==> schedule.consecutive_failures >= 1,
        schedule.condition() == RepoHealth::Healthy <==> schedule.consecutive_failures == 0,
{
}

/// What a repository and a poll are mixed to tells polls of one repository apart, and repositories at
/// one poll.
pub proof fn mixing_tells_apart(repo: u64, other: u64, poll: u64, next: u64)
    ensures
        poll != next ==> mixed(repo, poll) != mixed(repo, next),
        repo != other ==> mixed(repo, poll) != mixed(other, poll),
{
    if mixed(repo, poll) == mixed(repo, next) {
        same_poll(repo, poll, next);
    }
    if mixed(repo, poll) == mixed(other, poll) {
        same_repo(repo, other, poll);
    }
}

proof fn same_poll(repo: u64, poll: u64, next: u64)
    requires
        mixed(repo, poll) == mixed(repo, next),
    ensures
        poll == next,
{
    same_once_mixed(repo, poll, repo, next);
    a_sum_tells(poll, next, wrapped_product(repo, 0x9E37_79B9_7F4A_7C15));
}

proof fn same_repo(repo: u64, other: u64, poll: u64)
    requires
        mixed(repo, poll) == mixed(other, poll),
    ensures
        repo == other,
{
    same_once_mixed(repo, poll, other, poll);
    a_sum_tells(wrapped_product(repo, 0x9E37_79B9_7F4A_7C15), wrapped_product(other, 0x9E37_79B9_7F4A_7C15), poll);
    assert(0x9E37_79B9_7F4A_7C15int * 0xF1DE_83E1_9937_733Dint == 1 + 0x957B_BF35_006E_D677int * 0x1_0000_0000_0000_0000int);
    odd_product_tells(repo, other, 0x9E37_79B9_7F4A_7C15, 0xF1DE_83E1_9937_733D, 0x957B_BF35_006E_D677);
}

proof fn a_sum_tells(x: u64, y: u64, more: u64)
    ensures
        wrapped_sum(x, more) == wrapped_sum(y, more) ==> x == y,
        wrapped_sum(more, x) == wrapped_sum(more, y) ==> x == y,
{
    let m = 0x1_0000_0000_0000_0000int;
    assert((x + more) % m == if x + more < m {
        x + more
    } else {
        x + more - m
    });
    assert((y + more) % m == if y + more < m {
        y + more
    } else {
        y + more - m
    });
}

proof fn same_once_mixed(repo: u64, poll: u64, other: u64, next: u64)
    requires
        mixed(repo, poll) == mixed(other, next),
    ensures
        wrapped_sum(wrapped_product(repo, 0x9E37_79B9_7F4A_7C15), poll) == wrapped_sum(
            wrapped_product(other, 0x9E37_79B9_7F4A_7C15),
            next,
        ),
{
    let a = wrapped_sum(wrapped_product(repo, 0x9E37_79B9_7F4A_7C15), poll);
    let x = wrapped_sum(wrapped_product(other, 0x9E37_79B9_7F4A_7C15), next);
    let b = wrapped_product(a ^ (a >> 30), 0xBF58_476D_1CE4_E5B9);
    let y = wrapped_product(x ^ (x >> 30), 0xBF58_476D_1CE4_E5B9);
    let c = wrapped_product(b ^ (b >> 27), 0x94D0_49BB_1331_11EB);
    let z = wrapped_product(y ^ (y >> 27), 0x94D0_49BB_1331_11EB);
    assert(c ^ (c >> 31) == z ^ (z >> 31) ==> c == z) by (bit_vector);
    assert(0x94D0_49BB_1331_11EBint * 0x3196_42B2_D24D_8EC3int == 1 + 0x1CD3_36ED_A85F_1453int * 0x1_0000_0000_0000_0000int);
    odd_product_tells(b ^ (b >> 27), y ^ (y >> 27), 0x94D0_49BB_1331_11EB, 0x3196_42B2_D24D_8EC3, 0x1CD3_36ED_A85F_1453);
    assert(b ^ (b >> 27) == y ^ (y >> 27) ==> b == y) by (bit_vector);
    assert(0xBF58_476D_1CE4_E5B9int * 0x96DE_1B17_3F11_9089int == 1 + 0x70C3_BCA7_8F27_F46Cint * 0x1_0000_0000_0000_0000int);
    odd_product_tells(a ^ (a >> 30), x ^ (x >> 30), 0xBF58_476D_1CE4_E5B9, 0x96DE_1B17_3F11_9089, 0x70C3_BCA7_8F27_F46C);
    assert(a ^ (a >> 30) == x ^ (x >> 30) ==> a == x) by (bit_vector);
}

/// A factor that has an inverse among the numbers of so many bits tells what it is multiplied by.
proof fn odd_product_tells(x: u64, y: u64, factor: u64, inverse: int, k: int)
    requires
        factor * inverse == 1 + k * 0x1_0000_0000_0000_0000,
        wrapped_product(x, factor) == wrapped_product(y, factor),
    ensures
        x == y,
{
    let m = 0x1_0000_0000_0000_0000int;
    let d = x - y;
    let t = (x * factor) / m - (y * factor) / m;
    assert(0 <= (x * factor) % m < m && 0 <= (y * factor) % m < m) by (nonlinear_arith)
        requires
            m == 0x1_0000_0000_0000_0000,
    ;
    assert(d * factor == m * t) by (nonlinear_arith)
        requires
            d == x - y,
            m == 0x1_0000_0000_0000_0000,
            t == (x * factor) / m - (y * factor) / m,
            (x * factor) % m == (y * factor) % m,
    ;
    assert(d * (1 + k * m) == m * t * inverse) by (nonlinear_arith)
        requires
            d * factor == m * t,
            factor * inverse == 1 + k * m,
    ;
    let q = t * inverse - k * d;
    assert(d == m * q) by (nonlinear_arith)
        requires
            d * (1 + k * m) == m * t * inverse,
            q == t * inverse - k * d,
    ;
    assert(q == 0) by (nonlinear_arith)
        requires
            d == m * q,
            -m < d < m,
            m > 0,
    ;
}

/// What is said of an interval that was raised tells what it was and what it is.
pub proof fn a_raised_interval_is_told(configured: u64)
    ensures
        within(clamp_warning(configured), "poll_interval_secs = "@ + decimal(configured as nat)),
        within(clamp_warning(configured), "raised to "@ + decimal(MIN_POLL_INTERVAL_SECS as nat) + "s"@),
{
    raised_in_words(decimal(configured as nat), decimal(MIN_POLL_INTERVAL_SECS as nat));
}

proof fn raised_in_words(was: Seq<char>, is: Seq<char>)
    ensures
        ({
            let all = "poll_interval_secs = "@ + was + " is below the "@ + is + "s minimum (SPEC §7.1) and was raised to "@
                + is + "s; polling faster than this gets the account rate-limited"@;
            within(all, "poll_interval_secs = "@ + was) && within(all, "raised to "@ + is + "s"@)
        }),
{
    let middle = "s minimum (SPEC §7.1) and was raised to "@;
    let end = "s; polling faster than this gets the account rate-limited"@;
    let all = "poll_interval_secs = "@ + was + " is below the "@ + is + middle + is + end;
    reveal_strlit("s minimum (SPEC §7.1) and was raised to ");
    reveal_strlit("s; polling faster than this gets the account rate-limited");
    reveal_strlit("raised to ");
    reveal_strlit("s");
    let none = Seq::<char>::empty();
    let first = "poll_interval_secs = "@ + was;
    let rest = " is below the "@ + is + middle + is + end;
    stands_inside(none, first, rest);
    assert(none + first + rest =~= all);
    let n = middle.len() - 10;
    assert(middle.skip(n) =~= "raised to "@);
    assert(end.take(1) =~= "s"@);
    let before = first + " is below the "@ + is + middle.take(n);
    let told = "raised to "@ + is + "s"@;
    stands_inside(before, told, end.skip(1));
    assert(before + told + end.skip(1) =~= all);
}

/// How a repository's health reads.
pub proof fn how_health_reads(health: RepoHealth)
    ensures
        health.word() == "healthy"@ <==> health is Healthy,
        health.word() == "degraded"@ <==> health is Degraded,
{
    reveal_strlit("healthy");
    reveal_strlit("degraded");
    assert("healthy"@.len() == 7 && "degraded"@.len() == 8);
}

} // verus!
