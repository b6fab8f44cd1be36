//! Zoned timestamps as plain values.
//!
//! A document's date is carried around as the civil fields, the time zone
//! offset and the instant it denotes, so that every rule about dates can be
//! checked directly; only the parsing of the textual form is delegated to
//! the calendar library.

use vstd::prelude::*;

use crate::strutil::{push_char, push_pad2, push_pad4, spec_pad2, spec_pad4};

verus! {

/// One zoned timestamp, second precision plus the sub-second remainder.
///
/// `year`..`second` are the civil fields in the timestamp's own time zone,
/// `offset_second` is that zone's offset from UTC at this instant, and
/// `ts_second` / `ts_nanosecond` locate the instant on the UTC timeline
/// for ordering.  The instant is split by truncation toward zero, so for
/// instants before the epoch both parts are negative or zero; with that
/// convention the pair orders lexicographically.
#[derive(Clone, Copy, PartialEq, Eq, Structural, Debug)]
pub struct ZonedDate {
    pub year: i16,
    pub month: i8,
    pub day: i8,
    pub hour: i8,
    pub minute: i8,
    pub second: i8,
    pub offset_second: i32,
    pub ts_second: i64,
    pub ts_nanosecond: i32,
}

impl ZonedDate {
    /// The field ranges the calendar library guarantees of every value it
    /// hands out.  The sub-second part carries the sign of the instant:
    /// it is negative or zero before the epoch.
    pub open spec fn wf(self) -> bool {
        -9999 <= self.year <= 9999 && 1 <= self.month <= 12 && 1 <= self.day <= 31 && 0
            <= self.hour <= 23 && 0 <= self.minute <= 59 && 0 <= self.second <= 59 && -93599
            <= self.offset_second <= 93599 && -999_999_999 <= self.ts_nanosecond <= 999_999_999
    }

    /// Instants are ordered by their position on the UTC timeline.
    pub open spec fn spec_le(self, other: ZonedDate) -> bool {
        self.ts_second < other.ts_second || (self.ts_second == other.ts_second
            && self.ts_nanosecond <= other.ts_nanosecond)
    }

    /// Whether `self` denotes an instant no later than `other`.
    pub fn is_le(&self, other: &ZonedDate) -> (r: bool)
        ensures
            r == self.spec_le(*other),
    {
        self.ts_second < other.ts_second || (self.ts_second == other.ts_second
            && self.ts_nanosecond <= other.ts_nanosecond)
    }
}

/// Relies on `jiff::Zoned`'s `FromStr` to parse a zoned timestamp (offset
/// or time zone annotation required), and on its accessors `year`,
/// `month`, `day`, `hour`, `minute`, `second`, `offset` and `timestamp`,
/// whose documented ranges give the well-formedness bounds.
///
/// A time-zone annotation is resolved through the machine's time-zone
/// database, so the parse is not a function of the text alone; the
/// contract therefore states only what holds of every outcome.
#[verifier::external_body]
pub fn parse_zoned(s: &str) -> (r: Option<ZonedDate>)
    ensures
        r matches Some(z) ==> z.wf(),
{
    let z: jiff::Zoned = s.parse().ok()?;
    Some(ZonedDate {
        year: z.year(),
        month: z.month(),
        day: z.day(),
        hour: z.hour(),
        minute: z.minute(),
        second: z.second(),
        offset_second: z.offset().seconds(),
        ts_second: z.timestamp().as_second(),
        ts_nanosecond: z.timestamp().subsec_nanosecond(),
    })
}

/// The textual form `YYYY-MM-DDTHH:MM:SS+hh:mm` of the civil fields and
/// offset; negative years carry a leading minus sign.
pub open spec fn spec_rfc3339(z: ZonedDate) -> Seq<char> {
    let year_part = if z.year < 0 {
        seq!['-'] + spec_pad4(-z.year as int)
    } else {
        spec_pad4(z.year as int)
    };
    let off = if z.offset_second < 0 {
        -z.offset_second as int
    } else {
        z.offset_second as int
    };
    let sign = if z.offset_second < 0 {
        '-'
    } else {
        '+'
    };
    year_part + seq!['-'] + spec_pad2(z.month as int) + seq!['-'] + spec_pad2(z.day as int)
        + seq!['T'] + spec_pad2(z.hour as int) + seq![':'] + spec_pad2(z.minute as int) + seq![':']
        + spec_pad2(z.second as int) + seq![sign] + spec_pad2(off / 3600) + seq![':'] + spec_pad2(
        off % 3600 / 60,
    )
}

/// Formats a timestamp in the profile of RFC 3339 used by the feed:
/// full date, `T`, full time, and the numeric offset.
pub fn format_rfc3339(z: &ZonedDate) -> (r: String)
    requires
        z.wf(),
    ensures
        r@ == spec_rfc3339(*z),
{
    let mut s = String::new();
    if z.year < 0 {
        push_char(&mut s, '-');
        push_pad4(&mut s, (0 - z.year as i32) as u32);
    } else {
        push_pad4(&mut s, z.year as u32);
    }
    push_char(&mut s, '-');
    push_pad2(&mut s, z.month as u32);
    push_char(&mut s, '-');
    push_pad2(&mut s, z.day as u32);
    push_char(&mut s, 'T');
    push_pad2(&mut s, z.hour as u32);
    push_char(&mut s, ':');
    push_pad2(&mut s, z.minute as u32);
    push_char(&mut s, ':');
    push_pad2(&mut s, z.second as u32);
    let off: u32 = if z.offset_second < 0 {
        push_char(&mut s, '-');
        (0 - z.offset_second) as u32
    } else {
        push_char(&mut s, '+');
        z.offset_second as u32
    };
    push_pad2(&mut s, off / 3600);
    push_char(&mut s, ':');
    push_pad2(&mut s, off % 3600 / 60);
    proof {
        assert(s@ =~= spec_rfc3339(*z));
    }
    s
}

} // verus!
