//! Instants in UTC and spans of time.

use vstd::prelude::*;
use vstd::utf8::*;

verus! {

/// First second (counted from 1970-01-01 00:00:00 UTC) that an instant can fall in.
pub const MIN_SECS: i64 = -8334601228800;

/// Last second that an instant can fall in.
pub const MAX_SECS: i64 = 8210266876799;

/// Whether `nanos` nanoseconds into second `secs` is an instant. A second that ends a minute
/// may be twice as long (leap second).
pub open spec fn is_instant(secs: int, nanos: int) -> bool {
    &&& MIN_SECS <= secs <= MAX_SECS
    &&& 0 <= nanos < 2_000_000_000
    &&& nanos >= 1_000_000_000 ==> secs % 60 == 59
}

/// Whether the clock can show an instant: it shows none in a leap second.
pub open spec fn is_clock_reading(t: Timestamp) -> bool {
    is_instant(t.secs(), t.nanos()) && t.nanos() < 1_000_000_000
}

/// An instant in UTC.
#[derive(Clone, Copy, Debug, PartialEq, Eq, PartialOrd, Ord, Hash, Structural)]
pub struct Timestamp {
    secs: i64,
    nanos: u32,
}

/// A span of time, which may be negative.
#[derive(Clone, Copy, Debug, PartialEq, Eq, PartialOrd, Ord, Hash, Structural)]
pub struct TimeSpan {
    /// Length in nanoseconds.
    pub nanos: i128,
}

impl TimeSpan {
    /// A span of `secs` seconds.
    pub fn seconds(secs: i64) -> (r: TimeSpan)
        ensures
            r.nanos == secs * 1_000_000_000,
    {
        TimeSpan { nanos: secs as i128 * 1_000_000_000 }
    }

    /// A span of `ms` milliseconds.
    pub fn milliseconds(ms: i64) -> (r: TimeSpan)
        ensures
            r.nanos == ms * 1_000_000,
    {
        TimeSpan { nanos: ms as i128 * 1_000_000 }
    }
}

/// Nanoseconds from `earlier` to `later`. A leap second counts where the time of day of the
/// two lies on different sides of it.
pub open spec fn nanos_between(later: Timestamp, earlier: Timestamp) -> int {
    let leap = if later.secs() % 86_400 > earlier.secs() % 86_400 && earlier.nanos()
        >= 1_000_000_000 {
        1_000_000_000int
    } else if later.secs() % 86_400 < earlier.secs() % 86_400 && later.nanos() >= 1_000_000_000 {
        -1_000_000_000int
    } else {
        0int
    };
    (later.secs() - earlier.secs()) * 1_000_000_000 + (later.nanos() - earlier.nanos()) + leap
}

/// Milliseconds from 1970-01-01 00:00:00 UTC to `t`, rounded down.
pub open spec fn millis_of(t: Timestamp) -> int {
    t.secs() * 1000 + t.nanos() / 1_000_000
}

/// The instant `ms` milliseconds after 1970-01-01 00:00:00 UTC.
pub open spec fn instant_at_millis(ms: int) -> Option<Timestamp> {
    if is_instant(ms / 1000, ms % 1000 * 1_000_000) {
        Some(Timestamp::at(ms / 1000, ms % 1000 * 1_000_000))
    } else {
        None
    }
}

/// Nanoseconds from 1970-01-01 00:00:00 UTC to `t`, where 64 bits can hold them.
pub open spec fn nanos_of(t: Timestamp) -> Option<i64> {
    let n = t.secs() * 1_000_000_000 + t.nanos();
    if i64::MIN <= n <= i64::MAX && (t.secs() + 1) * 1_000_000_000 >= i64::MIN {
        Some(n as i64)
    } else {
        None
    }
}

/// The instant `n` nanoseconds after 1970-01-01 00:00:00 UTC.
pub open spec fn instant_at_nanos(n: i64) -> Timestamp {
    Timestamp::at(n as int / 1_000_000_000, n as int % 1_000_000_000)
}

/// The instant 1970-01-01 00:00:00 UTC.
pub open spec fn epoch() -> Timestamp {
    Timestamp::at(0, 0)
}

impl Timestamp {
    #[verifier::type_invariant]
    pub closed spec fn wf(self) -> bool {
        is_instant(self.secs as int, self.nanos as int)
    }

    /// Second that the instant falls in.
    pub closed spec fn secs(self) -> int {
        self.secs as int
    }

    /// Nanoseconds into that second.
    pub closed spec fn nanos(self) -> int {
        self.nanos as int
    }

    /// The instant `nanos` nanoseconds into second `secs`.
    pub closed spec fn at(secs: int, nanos: int) -> Timestamp {
        Timestamp { secs: secs as i64, nanos: nanos as u32 }
    }

    /// An instant is its second and its nanoseconds.
    pub broadcast proof fn at_has_its_parts(secs: int, nanos: int)
        requires
            is_instant(secs, nanos),
        ensures
            (#[trigger] Timestamp::at(secs, nanos)).secs() == secs,
            Timestamp::at(secs, nanos).nanos() == nanos,
    {
    }

    /// Two instants with the same second and nanoseconds are one.
    pub proof fn parts_determine(a: Timestamp, b: Timestamp)
        requires
            a.secs() == b.secs(),
            a.nanos() == b.nanos(),
        ensures
            a == b,
    {
    }

    fn from_valid(parts: (i64, u32)) -> (r: Timestamp)
        requires
            is_instant(parts.0 as int, parts.1 as int),
        ensures
            r == Timestamp::at(parts.0 as int, parts.1 as int),
    {
        Timestamp { secs: parts.0, nanos: parts.1 }
    }

    /// The instant `nanos` nanoseconds into second `secs`, where there is one.
    pub fn from_parts(secs: i64, nanos: u32) -> (r: Option<Timestamp>)
        ensures
            r == (if is_instant(secs as int, nanos as int) {
                Some(Timestamp::at(secs as int, nanos as int))
            } else {
                None
            }),
    {
        if secs < MIN_SECS || secs > MAX_SECS || nanos >= 2_000_000_000 {
            return None;
        }
        if nanos >= 1_000_000_000 {
            // `secs` is shifted by whole minutes so that the remainder is that of a
            // number that is not negative.
            let shifted: i64 = secs + 8_334_601_228_800;
            assert(shifted % 60 == secs as int % 60);
            if shifted % 60 != 59 {
                return None;
            }
        }
        Some(Timestamp::from_valid((secs, nanos)))
    }

    /// The second and the nanoseconds of the instant.
    pub fn parts(&self) -> (r: (i64, u32))
        ensures
            r.0 == self.secs(),
            r.1 == self.nanos(),
            is_instant(r.0 as int, r.1 as int),
            *self == Timestamp::at(r.0 as int, r.1 as int),
    {
        proof {
            use_type_invariant(self);
        }
        (self.secs, self.nanos)
    }

    /// The current instant, which the clock gives outside leap seconds.
    pub fn now() -> (r: Timestamp)
        ensures
            is_clock_reading(r),
    {
        Timestamp::from_valid(utc_now())
    }

    /// The instant 1970-01-01 00:00:00 UTC.
    pub fn unix_epoch() -> (r: Timestamp)
        ensures
            r == epoch(),
    {
        Timestamp::from_valid((0, 0))
    }

    /// The instant `ms` milliseconds after 1970-01-01 00:00:00 UTC.
    pub fn from_millis(ms: i64) -> (r: Option<Timestamp>)
        ensures
            r == instant_at_millis(ms as int),
    {
        match from_timestamp_millis(ms) {
            Some(parts) => Some(Timestamp::from_valid(parts)),
            None => None,
        }
    }

    /// Milliseconds from 1970-01-01 00:00:00 UTC, rounded down.
    pub fn millis(&self) -> (r: i64)
        ensures
            r == millis_of(*self),
    {
        timestamp_millis(self.parts())
    }

    /// The instant `n` nanoseconds after 1970-01-01 00:00:00 UTC.
    pub fn from_nanos(n: i64) -> (r: Timestamp)
        ensures
            r == instant_at_nanos(n),
    {
        Timestamp::from_valid(from_timestamp_nanos(n))
    }

    /// Nanoseconds from 1970-01-01 00:00:00 UTC, where 64 bits can hold them.
    pub fn nanos_opt(&self) -> (r: Option<i64>)
        ensures
            r == nanos_of(*self),
    {
        timestamp_nanos_opt(self.parts())
    }

    /// The span from `earlier` to this instant.
    pub fn since(&self, earlier: &Timestamp) -> (r: TimeSpan)
        ensures
            r.nanos == nanos_between(*self, *earlier),
    {
        let (secs, nanos): (i64, i32) = signed_duration_since(self.parts(), earlier.parts());
        TimeSpan { nanos: secs as i128 * 1_000_000_000 + nanos as i128 }
    }

    /// The instant that an RFC 3339 text denotes.
    pub fn parse_rfc3339(s: &str) -> (r: Option<Timestamp>)
        ensures
            match r {
                Some(t) => rfc3339_parts(s@) == Some((t.secs(), t.nanos())),
                None => rfc3339_parts(s@) is None,
            },
            encode_utf8(s@).len() < 19 ==> r is None,
    {
        match parse_from_rfc3339(s) {
            Some(parts) => Some(Timestamp::from_valid(parts)),
            None => None,
        }
    }

    /// The instant in RFC 3339 form.
    pub fn to_rfc3339(&self) -> (r: String)
        ensures
            r@ == rfc3339_text(self.secs(), self.nanos()),
    {
        datetime_to_rfc3339(self.parts())
    }
}

/// The instants that 64-bit nanoseconds reach are given back exactly.
pub proof fn nanos_round_trip(n: i64)
    ensures
        nanos_of(instant_at_nanos(n)) == Some(n),
{
    broadcast use Timestamp::at_has_its_parts;

    let s = n as int / 1_000_000_000;
    let f = n as int % 1_000_000_000;
    assert(n == s * 1_000_000_000 + f);
    assert(is_instant(s, f));
}

/// An instant whose nanoseconds fit in 64 bits, and which lies in no leap second, is given
/// back from them.
pub proof fn instants_come_back_from_nanos(t: Timestamp)
    requires
        is_instant(t.secs(), t.nanos()),
        t.nanos() < 1_000_000_000,
        nanos_of(t) is Some,
    ensures
        instant_at_nanos(nanos_of(t)->0) == t,
{
    broadcast use Timestamp::at_has_its_parts;

    let n = nanos_of(t)->0;
    assert(n as int / 1_000_000_000 == t.secs());
    assert(n as int % 1_000_000_000 == t.nanos());
    Timestamp::parts_determine(instant_at_nanos(n), t);
}

/// An instant on a whole millisecond, and in no leap second, is given back from its
/// milliseconds.
pub proof fn instants_come_back_from_millis(t: Timestamp)
    requires
        is_instant(t.secs(), t.nanos()),
        t.nanos() < 1_000_000_000,
        t.nanos() % 1_000_000 == 0,
    ensures
        instant_at_millis(millis_of(t)) == Some(t),
{
    broadcast use Timestamp::at_has_its_parts;

    let ms = millis_of(t);
    assert(ms / 1000 == t.secs());
    assert(ms % 1000 * 1_000_000 == t.nanos());
    Timestamp::parts_determine(Timestamp::at(ms / 1000, ms % 1000 * 1_000_000), t);
}

// ---------------------------------------------------------------------------
// Calls into chrono. An instant is handed over as its second and its nanoseconds.
// ---------------------------------------------------------------------------

/// `chrono::Utc::now`: some instant, which lies in no leap second; which one is left to the
/// clock. It panics where the system clock is set before 1970, which no argument can rule out.
#[verifier::external_body]
fn utc_now() -> (r: (i64, u32))
    ensures
        is_instant(r.0 as int, r.1 as int),
        r.1 < 1_000_000_000,
{
    let t = chrono::Utc::now();
    (t.timestamp(), t.timestamp_subsec_nanos())
}

/// `chrono::DateTime::from_timestamp_millis`: the instant `ms` milliseconds after the epoch,
/// `None` where it is out of range.
#[verifier::external_body]
fn from_timestamp_millis(ms: i64) -> (r: Option<(i64, u32)>)
    ensures
        match r {
            Some(p) => {
                &&& is_instant(p.0 as int, p.1 as int)
                &&& p.0 == ms as int / 1000
                &&& p.1 == ms as int % 1000 * 1_000_000
            },
            None => !is_instant(ms as int / 1000, ms as int % 1000 * 1_000_000),
        },
{
    match chrono::DateTime::from_timestamp_millis(ms) {
        Some(t) => Some((t.timestamp(), t.timestamp_subsec_nanos())),
        None => None,
    }
}

/// `chrono::DateTime::timestamp_millis`: whole milliseconds since the epoch.
#[verifier::external_body]
fn timestamp_millis(parts: (i64, u32)) -> (r: i64)
    requires
        is_instant(parts.0 as int, parts.1 as int),
    ensures
        r == parts.0 * 1000 + parts.1 / 1_000_000,
{
    chrono::DateTime::from_timestamp(parts.0, parts.1).unwrap().timestamp_millis()
}

/// `chrono::DateTime::from_timestamp_nanos`: the instant `n` nanoseconds after the epoch.
#[verifier::external_body]
fn from_timestamp_nanos(n: i64) -> (r: (i64, u32))
    ensures
        is_instant(r.0 as int, r.1 as int),
        r.0 == n as int / 1_000_000_000,
        r.1 == n as int % 1_000_000_000,
{
    let t = chrono::DateTime::from_timestamp_nanos(n);
    (t.timestamp(), t.timestamp_subsec_nanos())
}

/// `chrono::DateTime::timestamp_nanos_opt`: nanoseconds since the epoch, `None` where they do
/// not fit in 64 bits. It also gives `None` for an instant before the epoch whose following
/// second does not fit, which only a leap second at the lower end can be.
#[verifier::external_body]
fn timestamp_nanos_opt(parts: (i64, u32)) -> (r: Option<i64>)
    requires
        is_instant(parts.0 as int, parts.1 as int),
    ensures
        r == nanos_of(Timestamp::at(parts.0 as int, parts.1 as int)),
{
    chrono::DateTime::from_timestamp(parts.0, parts.1).unwrap().timestamp_nanos_opt()
}

/// `chrono::DateTime::signed_duration_since`: the span between two instants, as whole seconds
/// and nanoseconds that together make it up.
#[verifier::external_body]
fn signed_duration_since(later: (i64, u32), earlier: (i64, u32)) -> (r: (i64, i32))
    requires
        is_instant(later.0 as int, later.1 as int),
        is_instant(earlier.0 as int, earlier.1 as int),
    ensures
        r.0 * 1_000_000_000 + r.1 == nanos_between(
            Timestamp::at(later.0 as int, later.1 as int),
            Timestamp::at(earlier.0 as int, earlier.1 as int),
        ),
{
    let a = chrono::DateTime::from_timestamp(later.0, later.1).unwrap();
    let b = chrono::DateTime::from_timestamp(earlier.0, earlier.1).unwrap();
    let d = a.signed_duration_since(b);
    (d.num_seconds(), d.subsec_nanos())
}

/// What `chrono::DateTime::parse_from_rfc3339` reads from a text: second and nanoseconds.
pub uninterp spec fn rfc3339_parts(s: Seq<char>) -> Option<(int, int)>;

/// `chrono::DateTime::parse_from_rfc3339`: the instant that the text denotes, in UTC; the
/// result is named [`rfc3339_parts`]. A text of fewer than 19 bytes denotes none.
#[verifier::external_body]
fn parse_from_rfc3339(s: &str) -> (r: Option<(i64, u32)>)
    ensures
        match r {
            Some(p) => {
                &&& is_instant(p.0 as int, p.1 as int)
                &&& rfc3339_parts(s@) == Some((p.0 as int, p.1 as int))
            },
            None => rfc3339_parts(s@) is None,
        },
        encode_utf8(s@).len() < 19 ==> r is None,
{
    match chrono::DateTime::parse_from_rfc3339(s) {
        Ok(t) => Some((t.timestamp(), t.timestamp_subsec_nanos())),
        Err(_) => None,
    }
}

/// What `chrono::DateTime::to_rfc3339` writes of an instant.
pub uninterp spec fn rfc3339_text(secs: int, nanos: int) -> Seq<char>;

/// `chrono::DateTime::to_rfc3339`: the instant in RFC 3339 form; the result is named
/// [`rfc3339_text`].
#[verifier::external_body]
fn datetime_to_rfc3339(parts: (i64, u32)) -> (r: String)
    requires
        is_instant(parts.0 as int, parts.1 as int),
    ensures
        r@ == rfc3339_text(parts.0 as int, parts.1 as int),
{
    chrono::DateTime::from_timestamp(parts.0, parts.1).unwrap().to_rfc3339()
}

/// A number of milliseconds denotes the instant that lies so many milliseconds after 1970-01-01
/// 00:00:00 UTC, within the years that there are instants of, and none beyond them.
pub proof fn millis_are_counted(ms: int)
    ensures
        instant_at_millis(ms) is Some <==> -8334601228800 * 1000 <= ms < 8210266876800 * 1000,
        instant_at_millis(ms) matches Some(t) ==> {
            &&& t.secs() * 1000 + t.nanos() / 1_000_000 == ms
            &&& t.nanos() % 1_000_000 == 0
            &&& 0 <= t.nanos() < 1_000_000_000
        },
        epoch().secs() == 0,
        epoch().nanos() == 0,
        instant_at_millis(0) == Some(epoch()),
{
    broadcast use Timestamp::at_has_its_parts;

    assert(is_instant(0, 0));
}

/// A number of nanoseconds denotes the instant that lies so many nanoseconds after 1970-01-01
/// 00:00:00 UTC.
pub proof fn nanos_are_counted(n: i64)
    ensures
        ({
            let t = instant_at_nanos(n);
            &&& t.secs() * 1_000_000_000 + t.nanos() == n
            &&& 0 <= t.nanos() < 1_000_000_000
        }),
{
    broadcast use Timestamp::at_has_its_parts;

    assert(is_instant(n as int / 1_000_000_000, n as int % 1_000_000_000));
}

/// The nanoseconds of an instant are those since 1970-01-01 00:00:00 UTC, where 64 bits can hold
/// them with a second to spare at the lower end.
pub proof fn nanos_of_an_instant(t: Timestamp)
    ensures
        nanos_of(t) matches Some(n) ==> n == t.secs() * 1_000_000_000 + t.nanos(),
        -9_223_372_036 <= t.secs() < 9_223_372_036 && 0 <= t.nanos() < 1_000_000_000 ==> nanos_of(
            t,
        ) is Some,
        t.nanos() >= 0 && t.secs() > 9_223_372_036 ==> nanos_of(t) is None,
{
}

/// Outside of leap seconds the time between two instants is the difference of their nanoseconds
/// since 1970-01-01 00:00:00 UTC, negative where the first one lies before the second.
pub proof fn time_between_instants(later: Timestamp, earlier: Timestamp)
    requires
        later.nanos() < 1_000_000_000,
        earlier.nanos() < 1_000_000_000,
    ensures
        nanos_between(later, earlier) == (later.secs() * 1_000_000_000 + later.nanos()) - (
        earlier.secs() * 1_000_000_000 + earlier.nanos()),
{
}

/// The time from one instant to another is that from the other to it, with the sign turned.
pub proof fn time_between_turns_its_sign(a: Timestamp, b: Timestamp)
    ensures
        nanos_between(a, b) == -nanos_between(b, a),
        nanos_between(a, a) == 0,
{
}

/// A second has a thousand milliseconds, and a millisecond a million nanoseconds.
pub proof fn spans_are_counted(n: i64, s: TimeSpan, ms: TimeSpan)
    requires
        call_ensures(TimeSpan::seconds, (n,), s),
        call_ensures(TimeSpan::milliseconds, (n,), ms),
    ensures
        ms.nanos == n * 1_000_000,
        s.nanos == 1000 * ms.nanos,
{
}

/// An instant is made up of a second between the years there are and of nanoseconds below one
/// second, or below two in the last second of a minute.
pub proof fn instants_are_made_of_parts(secs: i64, nanos: u32, r: Option<Timestamp>)
    requires
        call_ensures(Timestamp::from_parts, (secs, nanos), r),
    ensures
        r is Some <==> {
            &&& -8334601228800 <= secs <= 8210266876799
            &&& nanos < 1_000_000_000 || (nanos < 2_000_000_000 && secs as int % 60 == 59)
        },
        r matches Some(t) ==> t.secs() == secs && t.nanos() == nanos,
{
    broadcast use Timestamp::at_has_its_parts;

}

} // verus!
