//! `current_time`.

use vstd::prelude::*;
use crate::console;
use crate::i18n::Locale;
use crate::json;
use crate::json::Json;
use crate::outcome::ToolOutcome;
use crate::text;
use crate::times;
use crate::times::Moment;

verus! {

pub const CURRENT_TIME_ID: &'static str = "current_time";

/// `current_time`.
pub struct CurrentTime;

/// The format that a call asks for, where it is more than white space.
pub open spec fn asked_format(format: Option<Seq<char>>) -> Option<Seq<char>> {
    match format {
        Some(f) if !text::is_blank(f) => Some(f),
        _ => None,
    }
}

pub open spec fn or_empty(s: Option<Seq<char>>) -> Seq<char> {
    match s {
        Some(t) => t,
        None => Seq::empty(),
    }
}

/// The time as it is answered: by the format where one is asked for, and otherwise
/// in full, both local and in UTC.
pub open spec fn time_text(now: Moment, format: Option<Seq<char>>, loc: Locale) -> Seq<char> {
    match asked_format(format) {
        Some(f) => match times::strftime(now.secs, now.nanos, now.offset, f) {
            Some(s) => s,
            None => loc.text1("tool.current_time.err.bad_format"@, "fmt"@, f),
        },
        None => full_time(
            or_empty(times::strftime(now.secs, now.nanos, now.offset, "%Y-%m-%d %H:%M:%S %:z"@)),
            or_empty(times::strftime(now.secs, now.nanos, 0, "%Y-%m-%d %H:%M:%S UTC"@)),
            loc,
        ),
    }
}

/// Local time and UTC.
pub open spec fn full_time(local: Seq<char>, utc: Seq<char>, loc: Locale) -> Seq<char> {
    loc.text("tool.current_time.local_label"@) + " "@ + local + "\nUTC: "@ + utc
}

/// Local time and UTC.
pub fn show_full(local: &str, utc: &str, loc: &Locale) -> (r: String)
    ensures
        r@ == full_time(local@, utc@, *loc),
{
    text::cat5(loc.t("tool.current_time.local_label"), " ", local, "\nUTC: ", utc)
}

/// The time by a format that was asked for; `written` is nothing where the format is
/// wrong.
pub fn show_formatted(format: &str, written: Option<String>, loc: &Locale) -> (r: String)
    ensures
        r@ == match json::opt_str(written) {
            Some(s) => s,
            None => loc.text1("tool.current_time.err.bad_format"@, "fmt"@, format@),
        },
{
    match written {
        Some(s) => s,
        None => loc.tf1("tool.current_time.err.bad_format", "fmt", format),
    }
}

/// The time as it is answered.
pub fn render(now: Moment, format: Option<&str>, loc: &Locale) -> (r: String)
    ensures
        r@ == time_text(now, console::opt_view(format), *loc),
{
    match format {
        Some(f) => if !text::blank(f) {
            return show_formatted(f, times::format_at(now.secs, now.nanos, now.offset, f), loc);
        },
        None => {},
    }
    let local: String = match times::format_at(now.secs, now.nanos, now.offset, "%Y-%m-%d %H:%M:%S %:z") {
        Some(s) => s,
        None => String::new(),
    };
    let utc: String = match times::format_at(now.secs, now.nanos, 0, "%Y-%m-%d %H:%M:%S UTC") {
        Some(s) => s,
        None => String::new(),
    };
    show_full(local.as_str(), utc.as_str(), loc)
}

impl CurrentTime {
    /// The answer at a moment.
    pub fn outcome(&self, now: Moment, args: &Json, loc: &Locale) -> (r: ToolOutcome)
        ensures
            r.says(time_text(now, args@.str_at("format"@), *loc)),
    {
        let format: Option<String> = args.get_str("format");
        match &format {
            Some(f) => ToolOutcome::text(render(now, Some(f.as_str()), loc)),
            None => ToolOutcome::text(render(now, None, loc)),
        }
    }
}

} // verus!
