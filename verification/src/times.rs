//! Moments in time, and how they are written.

use std::fmt::Write;
use vstd::prelude::*;

verus! {

/// A moment: seconds and nanoseconds since the epoch, and the seconds that the clock
/// on the wall is ahead of UTC.
#[derive(Debug, Clone, Copy, PartialEq, Eq, Structural)]
pub struct Moment {
    pub secs: i64,
    pub nanos: u32,
    pub offset: i32,
}

impl Moment {
    /// Where the moment stands among all moments: by the second, then by what is counted
    /// within it.
    pub open spec fn rank(self) -> int {
        self.secs * 0x1_0000_0000 + self.nanos
    }

    /// Where the moment stands among all moments.
    pub fn place(self) -> (r: i128)
        ensures
            r == self.rank(),
    {
        self.secs as i128 * 0x1_0000_0000 + self.nanos as i128
    }
}

/// The rank puts moments in the order of time: an earlier second comes first, and within
/// a second the smaller count.
pub proof fn ranks_are_in_the_order_of_time(a: Moment, b: Moment)
    ensures
        a.rank() < b.rank() <==> a.secs < b.secs || a.secs == b.secs && a.nanos < b.nanos,
{
}

/// A moment written by a `strftime` format, as the `chrono` crate writes it; nothing
/// where the format has a specifier that it does not know, or where there is no such
/// moment or offset.
pub uninterp spec fn strftime(
    secs: i64,
    nanos: u32,
    offset: i32,
    format: Seq<char>,
) -> Option<Seq<char>>;

/// `chrono::DateTime::format` of the moment that `DateTime::from_timestamp` and
/// `FixedOffset::east_opt` give. The result is a function of the arguments.
#[verifier::external_body]
pub(crate) fn format_at(secs: i64, nanos: u32, offset: i32, format: &str) -> (r: Option<
    String,
>)
    ensures
        crate::json::opt_str(r) == strftime(secs, nanos, offset, format@),
{
    let zone = chrono::FixedOffset::east_opt(offset)?;
    let at = chrono::DateTime::from_timestamp(secs, nanos)?.with_timezone(&zone);
    let mut out = String::new();
    write!(out, "{}", at.format(format)).ok()?;
    Some(out)
}

} // verus!
