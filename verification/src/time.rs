//! Instants and the RFC 3339 texts that name them.
use crate::text;
use vstd::prelude::*;

verus! {

/// The last second of the year 262142, which is the last that the calendar goes to.
pub const LAST_SECOND: i64 = 8_210_266_876_799;

/// A point in time: seconds since 1970-01-01T00:00:00Z and the nanoseconds after that second.
///
/// During a leap second the nanoseconds run past one thousand million.
#[derive(Debug, Clone, Copy, PartialEq, Eq, Structural)]
pub struct Instant {
    pub secs: i64,
    pub nanos: u32,
}

impl Instant {
    /// An instant that the calendar goes to: of the years -262143 to 262142 in UTC.
    pub open spec fn valid(self) -> bool {
        &&& -8_334_601_228_800 <= self.secs <= 8_210_266_876_799
        &&& self.nanos < 2_000_000_000
        &&& self.nanos >= 1_000_000_000 ==> self.secs as int % 60 == 59
    }

    /// `self` is strictly earlier than `other`.
    pub open spec fn earlier(self, other: Instant) -> bool {
        self.secs < other.secs || (self.secs == other.secs && self.nanos < other.nanos)
    }

    /// An instant of the years 0 to 9999 in UTC.
    pub open spec fn named(self) -> bool {
        self.valid() && -62_167_219_200 <= self.secs <= 253_402_300_799
    }

    /// The instant a whole number of seconds later. A leap second is over as soon as a second passes.
    pub open spec fn plus(self, secs: int) -> Instant {
        if secs == 0 {
            self
        } else {
            Instant { secs: (self.secs + secs) as i64, nanos: (self.nanos as int % 1_000_000_000) as u32 }
        }
    }

    pub fn later(self, secs: u64) -> (r: Instant)
        requires
            self.valid(),
            self.secs + secs <= 8_210_266_876_799,
        ensures
            r == self.plus(secs as int),
            r.valid(),
            self.named() && self.secs + secs <= 253_402_300_799 ==> r.named(),
    {
        if secs == 0 {
            self
        } else {
            let nanos: u32 = if self.nanos >= 1_000_000_000 {
                self.nanos - 1_000_000_000
            } else {
                self.nanos
            };
            Instant { secs: self.secs + secs as i64, nanos }
        }
    }

    /// The calendar goes that many seconds further.
    pub fn has_room(self, secs: u64) -> (r: bool)
        ensures
            r == (self.secs + secs <= 8_210_266_876_799),
    {
        self.secs <= LAST_SECOND && (secs as i128) <= (LAST_SECOND as i128) - (self.secs as i128)
    }

    pub fn is_before(self, other: Instant) -> (r: bool)
        ensures
            r == self.earlier(other),
    {
        self.secs < other.secs || (self.secs == other.secs && self.nanos < other.nanos)
    }
}

/// The instant that a text names in the grammar of RFC 3339; `None` for any other text.
pub uninterp spec fn rfc3339(text: Seq<char>) -> Option<Instant>;

/// The whole seconds from one instant to another.
pub uninterp spec fn whole_seconds(from: Instant, to: Instant) -> i64;

/// `chrono::DateTime::parse_from_rfc3339`, taken as the UTC timestamp of what it returns.
///
/// Every instant it returns is one that the calendar goes to; seconds past 59 are read as a leap second
/// of the last second of a minute.
#[verifier::external_body]
pub(crate) fn parse_rfc3339(text: &str) -> (r: Option<Instant>)
    ensures
        r == rfc3339(text@),
        r is Some ==> r->0.valid(),
{
    match chrono::DateTime::parse_from_rfc3339(text) {
        Ok(t) => Some(Instant { secs: t.timestamp(), nanos: t.timestamp_subsec_nanos() }),
        Err(_) => None,
    }
}

/// `chrono::DateTime::signed_duration_since` and `TimeDelta::num_seconds`.
///
/// Outside leap seconds the difference is that of the two timestamps, and the part of a second
/// that is left over is dropped: towards zero, in both directions. What a leap second counts for
/// is left to the crate.
#[verifier::external_body]
pub(crate) fn seconds_between(from: Instant, to: Instant) -> (r: i64)
    requires
        from.valid(),
        to.valid(),
    ensures
        r == whole_seconds(from, to),
        from.nanos < 1_000_000_000 && to.nanos < 1_000_000_000 && !to.earlier(from) ==> r == to.secs - from.secs - (
        if to.nanos < from.nanos {
            1int
        } else {
            0int
        }),
        from.nanos < 1_000_000_000 && to.nanos < 1_000_000_000 && to.earlier(from) ==> r == to.secs - from.secs + (
        if from.nanos < to.nanos {
            1int
        } else {
            0int
        }),
{
    let a = chrono::DateTime::from_timestamp(from.secs, from.nanos).expect("a valid instant");
    let b = chrono::DateTime::from_timestamp(to.secs, to.nanos).expect("a valid instant");
    b.signed_duration_since(a).num_seconds()
}

/// The text of an instant to the millisecond, in UTC.
pub uninterp spec fn iso_millis(at: Instant) -> Seq<char>;

/// `chrono::DateTime::to_rfc3339_opts` with milliseconds and `Z`.
///
/// Read back, the text of an instant of the years 0 to 9999 names the instant it was made from, without
/// what is finer than a millisecond. Other years are written with a sign, and nothing is said of reading
/// those back.
#[verifier::external_body]
pub(crate) fn iso(at: Instant) -> (r: String)
    requires
        at.valid(),
    ensures
        r@ == iso_millis(at),
        at.named() ==> rfc3339(r@) == Some(Instant { secs: at.secs, nanos: (at.nanos as int / 1_000_000 * 1_000_000) as u32 }),
{
    let t = chrono::DateTime::from_timestamp(at.secs, at.nanos).expect("a valid instant");
    t.to_rfc3339_opts(chrono::SecondsFormat::Millis, true)
}

/// The text of an instant to the second, in UTC.
pub uninterp spec fn iso_seconds(at: Instant) -> Seq<char>;

/// `chrono::DateTime::to_rfc3339_opts` with seconds and `Z`.
///
/// Outside leap seconds the text of an instant of the years 0 to 9999, read back, names the second of the
/// instant.
#[verifier::external_body]
pub(crate) fn iso_secs(at: Instant) -> (r: String)
    requires
        at.valid(),
    ensures
        r@ == iso_seconds(at),
        at.named() && at.nanos < 1_000_000_000 ==> rfc3339(r@) == Some(Instant { secs: at.secs, nanos: 0 }),
{
    let t = chrono::DateTime::from_timestamp(at.secs, at.nanos).expect("a valid instant");
    t.to_rfc3339_opts(chrono::SecondsFormat::Secs, true)
}

/// The time that a text names has come: an unreadable one must not hold anything up for ever.
pub open spec fn passed(text: Seq<char>, now: Instant) -> bool {
    match rfc3339(text) {
        Some(t) => !now.earlier(t),
        None => true,
    }
}

pub fn past(text: &str, now: Instant) -> (r: bool)
    ensures
        r == passed(text@, now),
{
    match parse_rfc3339(text) {
        Some(t) => !now.is_before(t),
        None => true,
    }
}

/// One timestamp text names an earlier time than another: by instant where both are RFC 3339,
/// by text where one is not.
pub open spec fn ts_before(a: Seq<char>, b: Seq<char>) -> bool {
    match (rfc3339(a), rfc3339(b)) {
        (Some(x), Some(y)) => x.earlier(y),
        _ => text::text_before(a, b),
    }
}

/// Timestamps of different precision and offset are compared as instants.
pub fn is_earlier(a: &str, b: &str) -> (r: bool)
    ensures
        r == ts_before(a@, b@),
{
    match (parse_rfc3339(a), parse_rfc3339(b)) {
        (Some(x), Some(y)) => x.is_before(y),
        _ => text::precedes(a, b),
    }
}

/// Two optional timestamps name the same time, or are both absent.
pub open spec fn same_time(a: Option<Seq<char>>, b: Option<Seq<char>>) -> bool {
    match (a, b) {
        (Some(x), Some(y)) => !ts_before(x, y) && !ts_before(y, x),
        (None, None) => true,
        _ => false,
    }
}

pub fn same_instant(a: Option<&str>, b: Option<&str>) -> (r: bool)
    ensures
        r == same_time(text::arg(a), text::arg(b)),
{
    match (a, b) {
        (Some(x), Some(y)) => !is_earlier(x, y) && !is_earlier(y, x),
        (None, None) => true,
        _ => false,
    }
}

// ---------------------------------------------------------------- laws

/// Times that can be read are compared as instants, to the nanosecond, however they are written; they are
/// in a strict order, and two that neither comes before the other are the same instant.
pub proof fn readable_times_are_in_order(a: Seq<char>, b: Seq<char>, c: Seq<char>)
    requires
        rfc3339(a) is Some,
        rfc3339(b) is Some,
        rfc3339(c) is Some,
    ensures
        ({
            let x = rfc3339(a)->0;
            let y = rfc3339(b)->0;
            &&& ts_before(a, b) ==> x.secs <= y.secs && x != y
            &&& x.secs < y.secs ==> ts_before(a, b)
            &&& x.secs == y.secs ==> ts_before(a, b) == (x.nanos < y.nanos)
            &&& !ts_before(a, a)
            &&& !(ts_before(a, b) && ts_before(b, a))
            &&& ts_before(a, b) && ts_before(b, c) ==> ts_before(a, c)
            &&& same_time(Some(a), Some(b)) <==> x == y
        }),
{
}

/// Where one of two times cannot be read they are compared as texts; two texts that are the same name the
/// same time, readable or not.
pub proof fn unreadable_times_are_compared_as_texts(a: Seq<char>, b: Seq<char>)
    ensures
        rfc3339(a) is None || rfc3339(b) is None ==> ts_before(a, b) == text::text_before(a, b),
        same_time(Some(a), Some(a)),
        same_time(None, None),
        !same_time(Some(a), None),
        !same_time(None, Some(a)),
        same_time(Some(a), Some(b)) == same_time(Some(b), Some(a)),
{
    text::text_order_is_strict(a, a);
}

/// A time has come at the very instant that it names and at every later one, and at no earlier one; one
/// that cannot be read has always come.
pub proof fn a_time_comes_and_stays(t: Seq<char>, now: Instant, later: Instant)
    ensures
        rfc3339(t) is None ==> passed(t, now),
        rfc3339(t) matches Some(x) ==> {
            &&& passed(t, x)
            &&& passed(t, now) <==> x.secs < now.secs || (x.secs == now.secs && x.nanos <= now.nanos)
        },
        passed(t, now) && (now.secs < later.secs || (now.secs == later.secs && now.nanos <= later.nanos)) ==> passed(t, later),
{
}

/// Going on by some seconds adds exactly these: the instant is that many seconds later, within the same
/// part of a second.
pub proof fn going_on_adds_the_seconds(at: Instant, secs: int)
    requires
        at.valid(),
        0 <= secs,
        at.secs + secs <= 8_210_266_876_799,
    ensures
        at.plus(secs).secs == at.secs + secs,
        at.nanos < 1_000_000_000 ==> at.plus(secs).nanos == at.nanos,
        secs > 0 ==> at.plus(secs).nanos < 1_000_000_000 && at.earlier(at.plus(secs)),
        secs == 0 ==> at.plus(secs) == at,
{
}

/// Two times are the same where both are missing, or both can be read and name one instant, or, where one
/// cannot be read, the texts are equal.
pub proof fn when_two_times_are_the_same(a: Option<Seq<char>>, b: Option<Seq<char>>)
    ensures
        a is None && b is None ==> same_time(a, b),
        a is None != b is None ==> !same_time(a, b),
        a is Some && b is Some && rfc3339(a->0) is Some && rfc3339(b->0) is Some ==> same_time(a, b) == (rfc3339(a->0)->0.secs
            == rfc3339(b->0)->0.secs && rfc3339(a->0)->0.nanos == rfc3339(b->0)->0.nanos),
        a is Some && b is Some && (rfc3339(a->0) is None || rfc3339(b->0) is None) ==> same_time(a, b) == (a == b),
{
    if a is Some && b is Some {
        text::text_order_is_total(a->0, b->0);
        text::text_order_is_strict(a->0, a->0);
    }
}

} // verus!
