//! Moments and the time between them.

use vstd::prelude::*;

verus! {

/// Nanoseconds in a second.
pub const NANOS_PER_SEC: i128 = 1_000_000_000;

/// Nanoseconds in a millisecond.
pub const NANOS_PER_MILLI: i128 = 1_000_000;

/// Nanoseconds in an hour.
pub const NANOS_PER_HOUR: i128 = 3_600_000_000_000;

/// Nanoseconds in a day.
pub const NANOS_PER_DAY: i128 = 86_400_000_000_000;

/// The first second of the calendar.
pub const FIRST_SECOND: i64 = -8_334_601_228_800;

/// The last second of the calendar.
pub const LAST_SECOND: i64 = 8_210_266_876_799;

/// A moment, counted from the first of January 1970, in UTC.
#[derive(Clone, Copy, Debug, PartialEq, Eq, PartialOrd, Ord, Structural)]
pub struct Timestamp {
    /// Nanoseconds since then; negative before.
    pub nanos: i128,
}

/// The result of formatting a moment in UTC by a `strftime` pattern.
pub uninterp spec fn utc_text(secs: int, nanos: int, pattern: Seq<char>) -> Seq<char>;

/// The result of writing a moment in UTC as RFC 3339 has it.
pub uninterp spec fn rfc3339_text(secs: int, nanos: int) -> Seq<char>;

/// The result of reading a text as RFC 3339 has it: seconds and nanoseconds since the start
/// of 1970, when it is such a text.
pub uninterp spec fn rfc3339_moment(raw: Seq<char>) -> Option<(int, int)>;

/// The first second of the years that RFC 3339 can write.
pub const FIRST_WRITTEN_SECOND: i64 = -62_167_219_200;

/// The last second of the years that RFC 3339 can write.
pub const LAST_WRITTEN_SECOND: i64 = 253_402_300_799;

/// `chrono::DateTime::<Utc>::format`, rendered: the text of a moment by a pattern. It is
/// the same for the same moment and pattern. A moment outside the calendar is left out,
/// and so is any pattern but that of a date, since an unknown specifier fails to render.
#[verifier::external_body]
fn format_utc(secs: i64, nanos: u32, pattern: &str) -> (r: String)
    requires
        FIRST_SECOND <= secs <= LAST_SECOND,
        nanos < 1_000_000_000,
        pattern@ == "%Y-%m-%d"@,
    ensures
        r@ == utc_text(secs as int, nanos as int, pattern@),
{
    chrono::DateTime::from_timestamp(secs, nanos).unwrap().format(pattern).to_string()
}

/// `chrono::DateTime::<Utc>::to_rfc3339`: the text of a moment. It is the same for the
/// same moment, and where the year has four digits, reading it gives the moment back. A moment
/// outside the calendar is left out.
#[verifier::external_body]
fn write_rfc3339(secs: i64, nanos: u32) -> (r: String)
    requires
        FIRST_SECOND <= secs <= LAST_SECOND,
        nanos < 1_000_000_000,
    ensures
        r@ == rfc3339_text(secs as int, nanos as int),
        FIRST_WRITTEN_SECOND <= secs <= LAST_WRITTEN_SECOND ==> rfc3339_moment(r@) == Some(
            (secs as int, nanos as int),
        ),
{
    chrono::DateTime::from_timestamp(secs, nanos).unwrap().to_rfc3339()
}

/// `chrono::DateTime::parse_from_rfc3339`: the moment that a text names, as seconds and
/// nanoseconds since the start of 1970. It is the same for the same text.
#[verifier::external_body]
fn parse_rfc3339(raw: &str) -> (r: Option<(i64, u32)>)
    ensures
        rfc3339_moment(raw@) == match r {
            Some(p) => Some((p.0 as int, p.1 as int)),
            None => None::<(int, int)>,
        },
{
    chrono::DateTime::parse_from_rfc3339(raw).ok().map(
        |moment| (moment.timestamp(), moment.timestamp_subsec_nanos()),
    )
}

/// How many whole units fit, the rest dropped: rounded towards zero.
pub open spec fn whole_units(n: int, unit: int) -> int {
    if n >= 0 {
        n / unit
    } else {
        -((-n) / unit)
    }
}

/// How many whole units fit, rounded towards zero.
pub fn whole(n: i128, unit: i128) -> (r: i128)
    requires
        unit > 0,
        n > i128::MIN,
    ensures
        r as int == whole_units(n as int, unit as int),
{
    if n >= 0 {
        n / unit
    } else {
        let m: i128 = -n;
        assert(0 <= (m as int) / (unit as int) <= m) by (nonlinear_arith)
            requires
                m > 0,
                unit > 0,
        ;
        -(m / unit)
    }
}

impl Timestamp {
    /// The second that the moment falls in.
    pub open spec fn second(self) -> int {
        self.nanos as int / 1_000_000_000
    }

    /// How far into that second, in nanoseconds.
    pub open spec fn subsecond(self) -> int {
        self.nanos as int % 1_000_000_000
    }

    /// Whether the calendar has this moment.
    pub open spec fn in_calendar(self) -> bool {
        FIRST_SECOND <= self.second() <= LAST_SECOND
    }

    /// The day that the moment falls in, as `2026-09-01`.
    pub open spec fn day(self) -> Seq<char> {
        utc_text(self.second(), self.subsecond(), "%Y-%m-%d"@)
    }

    /// The moment as RFC 3339 writes it.
    pub open spec fn rfc3339(self) -> Seq<char> {
        rfc3339_text(self.second(), self.subsecond())
    }

    /// The moment so many seconds and nanoseconds after the start of 1970.
    pub fn at(secs: i64, nanos: u32) -> (r: Timestamp)
        requires
            nanos < 1_000_000_000,
        ensures
            r.second() == secs,
            r.subsecond() == nanos,
            r.nanos == secs * 1_000_000_000 + nanos,
    {
        Timestamp { nanos: secs as i128 * NANOS_PER_SEC + nanos as i128 }
    }

    /// The seconds and nanoseconds since the start of 1970.
    pub fn parts(self) -> (r: (i64, u32))
        requires
            self.in_calendar(),
        ensures
            r.0 == self.second(),
            r.1 == self.subsecond(),
    {
        let n: i128 = self.nanos;
        // Division rounds towards zero, and seconds are counted from below.
        let secs: i128 = if n >= 0 {
            n / NANOS_PER_SEC
        } else {
            -((-n - 1) / NANOS_PER_SEC) - 1
        };
        let rest: i128 = n - secs * NANOS_PER_SEC;
        (secs as i64, rest as u32)
    }

    /// The day that the moment falls in, as `2026-09-01`.
    pub fn day_text(self) -> (r: String)
        requires
            self.in_calendar(),
        ensures
            r@ == self.day(),
    {
        let (secs, nanos) = self.parts();
        format_utc(secs, nanos, "%Y-%m-%d")
    }

    /// The moment as RFC 3339 writes it.
    pub fn to_rfc3339(self) -> (r: String)
        requires
            self.in_calendar(),
        ensures
            r@ == self.rfc3339(),
            self.four_digit_year() ==> Timestamp::written(r@) == Some(self),
    {
        let (secs, nanos) = self.parts();
        write_rfc3339(secs, nanos)
    }

    /// Whether the moment falls in a year of four digits.
    pub open spec fn four_digit_year(self) -> bool {
        FIRST_WRITTEN_SECOND <= self.second() <= LAST_WRITTEN_SECOND
    }

    /// The moment that a text names, when it is one that RFC 3339 writes.
    pub open spec fn written(raw: Seq<char>) -> Option<Timestamp> {
        match rfc3339_moment(raw) {
            Some(p) => Some(Timestamp { nanos: (p.0 * NANOS_PER_SEC + p.1) as i128 }),
            None => None,
        }
    }

    /// The moment that a text names, when it is one that RFC 3339 writes.
    pub fn from_rfc3339(raw: &str) -> (r: Option<Timestamp>)
        ensures
            r == Timestamp::written(raw@),
            r matches Some(t) ==> i64::MIN * NANOS_PER_SEC <= t.nanos <= i64::MAX * NANOS_PER_SEC + u32::MAX,
    {
        match parse_rfc3339(raw) {
            Some(p) => {
                let (secs, nanos) = p;
                Some(Timestamp { nanos: secs as i128 * NANOS_PER_SEC + nanos as i128 })
            },
            None => None,
        }
    }

    /// The moment so many hours later, where the calendar has it.
    pub fn plus_hours(self, hours: i64) -> (r: Timestamp)
        requires
            self.in_calendar(),
        ensures
            r.nanos == self.nanos + hours * NANOS_PER_HOUR,
    {
        Timestamp { nanos: self.nanos + hours as i128 * NANOS_PER_HOUR }
    }

    /// The nanoseconds from `earlier` to this moment; negative when it is later.
    pub fn since(self, earlier: Timestamp) -> (r: i128)
        requires
            self.in_calendar(),
            earlier.in_calendar(),
        ensures
            r == self.nanos - earlier.nanos,
            r > i128::MIN,
    {
        self.nanos - earlier.nanos
    }
}

/// A moment is its seconds and what is left over, which is less than a second and never negative.
pub proof fn a_moment_is_its_seconds_and_the_rest(t: Timestamp)
    ensures
        t.second() * 1_000_000_000 + t.subsecond() == t.nanos,
        0 <= t.subsecond() < 1_000_000_000,
{
}

/// What is left over of whole units is dropped, on either side of zero.
pub proof fn what_is_left_over_is_dropped(n: int, unit: int)
    requires
        unit > 0,
    ensures
        n >= 0 ==> whole_units(n, unit) * unit <= n < (whole_units(n, unit) + 1) * unit,
        n <= 0 ==> (whole_units(n, unit) - 1) * unit < n <= whole_units(n, unit) * unit,
        whole_units(-n, unit) == -whole_units(n, unit),
{
    let m = if n >= 0 {
        n
    } else {
        -n
    };
    let q = m / unit;
    assert(q * unit <= m < (q + 1) * unit) by (nonlinear_arith)
        requires
            q == m / unit,
            m >= 0,
            unit > 0,
    ;
    assert((-q) * unit == -(q * unit) && (-q - 1) * unit == -((q + 1) * unit)) by (nonlinear_arith);
    assert(0int / unit == 0) by (nonlinear_arith)
        requires
            unit > 0,
    ;
}

/// A moment that is read is the seconds and nanoseconds that the text names.
pub proof fn what_is_read_is_what_was_named(raw: Seq<char>, t: Timestamp)
    requires
        rfc3339_moment(raw) == Some((t.second(), t.subsecond())),
    ensures
        Timestamp::written(raw) == Some(t),
{
}

} // verus!
