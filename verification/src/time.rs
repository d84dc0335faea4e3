//! Points in time, and their text.

use crate::text;
use vstd::prelude::*;
use vstd::string::*;

verus! {

/// A point in time: seconds since the start of 1970 in UTC, and nanoseconds.
#[derive(Clone, Copy, Debug, PartialEq, Eq, Structural)]
pub struct Instant {
    pub secs: i64,
    pub nanos: u32,
}

impl Instant {
    /// Whether the calendar reaches that far, and the nanoseconds are those of
    /// a second. A leap second is told by a second's worth of nanoseconds more,
    /// at the end of a minute.
    pub open spec fn valid(self) -> bool {
        &&& -8334601228800 <= self.secs <= 8210266876799
        &&& self.nanos < 1_000_000_000 || (self.nanos < 2_000_000_000 && self.secs as int % 60 == 59)
    }

    /// Whether the year has at most four digits and is not before the year zero.
    pub open spec fn plain(self) -> bool {
        -62167219200 <= self.secs <= 253402300799
    }

    /// Whether one point is at or before another.
    pub open spec fn at_or_before(self, other: Instant) -> bool {
        self.secs < other.secs || (self.secs == other.secs && self.nanos <= other.nanos)
    }
}

/// The text of a point in time in the format of RFC 3339.
pub uninterp spec fn rfc3339_text(secs: i64, nanos: u32) -> Seq<char>;

/// The seconds and nanoseconds of the point in time that a text in the format
/// of RFC 3339 denotes.
pub uninterp spec fn rfc3339_instant(text: Seq<char>) -> Option<(i64, u32)>;

/// `DateTime::to_rfc3339` of `chrono`, in UTC. The text of a point in the years
/// from 0 to 9999 denotes that point again: it has all the digits that the
/// nanoseconds need, and a leap second is written as the second 60, which is
/// read as one. What the text looks like is not stated beyond the name
/// [`rfc3339_text`].
#[verifier::external_body]
pub(crate) fn to_rfc3339(t: &Instant) -> (out: String)
    requires
        t.valid(),
    ensures
        out@ == rfc3339_text(t.secs, t.nanos),
        t.plain() ==> rfc3339_instant(out@) == Some((t.secs, t.nanos)),
{
    chrono::DateTime::from_timestamp(t.secs, t.nanos).map(|d| d.to_rfc3339()).unwrap_or_default()
}

/// `DateTime::parse_from_rfc3339` of `chrono`, turned to UTC: the point that
/// the text denotes, which the calendar reaches. Which texts denote one is not
/// stated beyond the name [`rfc3339_instant`].
#[verifier::external_body]
pub(crate) fn parse_rfc3339(text: &str) -> (r: Option<Instant>)
    ensures
        match r {
            Some(t) => rfc3339_instant(text@) == Some((t.secs, t.nanos)) && t.valid(),
            None => rfc3339_instant(text@) is None,
        },
{
    let d = chrono::DateTime::parse_from_rfc3339(text).ok()?;
    Some(Instant { secs: d.timestamp(), nanos: d.timestamp_subsec_nanos() })
}

/// Whether one point is at or before another.
pub fn is_at_or_before(a: &Instant, b: &Instant) -> (r: bool)
    ensures
        r == a.at_or_before(*b),
{
    a.secs < b.secs || (a.secs == b.secs && a.nanos <= b.nanos)
}

/// The text of a point that may be missing.
pub open spec fn opt_text(t: Option<Instant>) -> Option<Seq<char>> {
    match t {
        Some(i) => Some(rfc3339_text(i.secs, i.nanos)),
        None => None,
    }
}

/// The point that a text that may be missing denotes, if it denotes one.
pub open spec fn opt_instant(s: Option<Seq<char>>) -> Option<(i64, u32)> {
    match s {
        Some(t) => rfc3339_instant(t),
        None => None,
    }
}

/// The seconds and nanoseconds of a point that may be missing.
pub open spec fn opt_parts(t: Option<Instant>) -> Option<(i64, u32)> {
    match t {
        Some(i) => Some((i.secs, i.nanos)),
        None => None,
    }
}

/// Reads a text that may be missing.
pub fn read_opt(s: &Option<String>) -> (r: Option<Instant>)
    ensures
        opt_parts(r) == opt_instant(text::opt_view(*s)),
        r matches Some(t) ==> t.valid(),
{
    match s {
        Some(t) => parse_rfc3339(t.as_str()),
        None => None,
    }
}

/// The text of a point that may be missing. In the years from 0 to 9999 it
/// denotes that point again.
pub fn show_opt(t: &Option<Instant>) -> (r: Option<String>)
    requires
        *t matches Some(i) ==> i.valid(),
    ensures
        text::opt_view(r) == opt_text(*t),
        (*t matches Some(i) ==> i.plain()) ==> opt_instant(text::opt_view(r)) == opt_parts(*t),
{
    match t {
        Some(i) => Some(to_rfc3339(i)),
        None => None,
    }
}

// ── laws ────────────────────────────────────────────────────────────────

/// Of two points the one with fewer seconds is first, and of two in one second the
/// one with fewer nanoseconds; a point is at itself.
pub proof fn law_points_are_in_order(a: &Instant, b: &Instant, ab: bool, ba: bool)
    requires
        call_ensures(is_at_or_before, (a, b), ab),
        call_ensures(is_at_or_before, (b, a), ba),
    ensures
        a.secs < b.secs ==> ab && !ba,
        a.secs == b.secs && a.nanos < b.nanos ==> ab && !ba,
        a.secs == b.secs && a.nanos == b.nanos ==> ab && ba,
{
}

/// A point that is shown is read again as it was, leap seconds among them, in the
/// years from 0 to 9999; nothing is shown and read where there is no point.
pub proof fn law_shown_point_is_read(t: &Option<Instant>, s: Option<String>, r: Option<Instant>)
    requires
        *t matches Some(i) ==> i.valid() && i.plain(),
        call_ensures(show_opt, (t,), s),
        call_ensures(read_opt, (&s,), r),
    ensures
        s is Some <==> *t is Some,
        r == *t,
{
    assert(opt_parts(r) == opt_parts(*t));
}

} // verus!
