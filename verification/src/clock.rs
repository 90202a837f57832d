//! Moments on the local clock.
use vstd::prelude::*;

verus! {

/// The first moment that the calendar knows, in seconds since the start of 1970.
pub const FIRST_SECOND: i64 = -8334601228800;

/// The last moment that the calendar knows, in seconds since the start of 1970.
pub const LAST_SECOND: i64 = 8210266876799;

/// How the moment at which a build finished is shown.
pub const FINISHED_AT_PATTERN: &'static str = "%B %d at %I:%M %p (%Z)";

/// A moment, and how far the local clock is ahead of UTC at that moment.
#[derive(Clone, Copy, Debug, PartialEq, Eq, Structural)]
pub struct LocalTime {
    secs: i64,
    nanos: u32,
    offset: i32,
}

/// What a moment is: seconds since the start of 1970, nanoseconds, and the seconds by which the
/// local clock is ahead of UTC.
pub struct TimeView {
    pub secs: int,
    pub nanos: int,
    pub offset: int,
}

impl View for LocalTime {
    type V = TimeView;

    closed spec fn view(&self) -> TimeView {
        TimeView { secs: self.secs as int, nanos: self.nanos as int, offset: self.offset as int }
    }
}

/// The calendar knows the moment, and the offset is less than a day.
pub open spec fn is_moment(secs: int, nanos: int, offset: int) -> bool {
    &&& FIRST_SECOND <= secs <= LAST_SECOND
    &&& 0 <= nanos < 1_000_000_000
    &&& -86_400 < offset < 86_400
}

/// What `chrono::DateTime::format` writes for a moment under a pattern.
pub uninterp spec fn formatted(secs: int, nanos: int, offset: int, pattern: Seq<char>) -> Seq<char>;

/// Calls `chrono::Local::now`, and takes the result apart into seconds since the start of 1970,
/// nanoseconds, and the offset of the local clock from UTC in seconds. The contract claims the
/// ranges in which these lie; the moment itself is whatever the machine's clock says. The call
/// panics where that clock stands before 1970 or past the calendar, and where the machine's time
/// zone gives no offset that can be used.
#[verifier::external_body]
fn local_now() -> (r: (i64, u32, i32))
    ensures
        is_moment(r.0 as int, r.1 as int, r.2 as int),
{
    let now = chrono::Local::now();
    (now.timestamp(), now.timestamp_subsec_nanos(), now.offset().local_minus_utc())
}

/// Calls `chrono::DateTime::format` on the moment put together again, and writes the result out.
/// The contract claims that the text is fixed by the moment, its offset and the pattern. Other
/// patterns than the one named here may hold directives that the call cannot write.
#[verifier::external_body]
fn format_moment(secs: i64, nanos: u32, offset: i32, pattern: &str) -> (r: String)
    requires
        is_moment(secs as int, nanos as int, offset as int),
        pattern@ == FINISHED_AT_PATTERN@,
    ensures
        r@ == formatted(secs as int, nanos as int, offset as int, pattern@),
{
    let utc = chrono::DateTime::from_timestamp(secs, nanos).unwrap();
    let zone = chrono::FixedOffset::east_opt(offset).unwrap();
    utc.with_timezone(&zone).format(pattern).to_string()
}

/// The local clock, and nothing else, gave this moment.
pub closed spec fn is_reading(time: TimeView) -> bool {
    exists|reading: (i64, u32, i32)|
        {
            &&& #[trigger] call_ensures(local_now, (), reading)
            &&& time.secs == reading.0
            &&& time.nanos == reading.1
            &&& time.offset == reading.2
        }
}

impl LocalTime {
    #[verifier::type_invariant]
    spec fn in_range(self) -> bool {
        is_moment(self@.secs, self@.nanos, self@.offset)
    }

    /// The moment at `secs` seconds and `nanos` nanoseconds since the start of 1970, on a clock
    /// that is `offset` seconds ahead of UTC; `None` where there is no such moment.
    pub fn new(secs: i64, nanos: u32, offset: i32) -> (r: Option<Self>)
        ensures
            match r {
                Some(time) => is_moment(secs as int, nanos as int, offset as int) && time@ == (
                TimeView { secs: secs as int, nanos: nanos as int, offset: offset as int }),
                None => !is_moment(secs as int, nanos as int, offset as int),
            },
            r is Some <==> {
                &&& -8334601228800 <= secs <= 8210266876799
                &&& nanos < 1_000_000_000
                &&& -86_400 < offset < 86_400
            },
    {
        if FIRST_SECOND <= secs && secs <= LAST_SECOND && nanos < 1_000_000_000 && -86_400 < offset
            && offset < 86_400 {
            Some(LocalTime { secs, nanos, offset })
        } else {
            None
        }
    }

    /// The present moment.
    pub fn now() -> (r: Self)
        ensures
            is_moment(r@.secs, r@.nanos, r@.offset),
            is_reading(r@),
    {
        let (secs, nanos, offset) = local_now();
        LocalTime { secs, nanos, offset }
    }

    /// The moment as it is shown to tell when a build finished.
    pub fn finished_at_text(&self) -> (r: String)
        ensures
            r@ == formatted(self@.secs, self@.nanos, self@.offset, FINISHED_AT_PATTERN@),
    {
        proof {
            use_type_invariant(self);
        }
        format_moment(self.secs, self.nanos, self.offset, FINISHED_AT_PATTERN)
    }
}

/// The present moment is what the local clock gave.
proof fn law_present_moment_is_read(now: LocalTime)
    requires
        call_ensures(LocalTime::now, (), now),
    ensures
        call_ensures(local_now, (), (now.secs, now.nanos, now.offset)),
{
}

} // verus!
