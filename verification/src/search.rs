//! What the searches have in common: a query, and how many hits are wanted.

use vstd::prelude::*;
use crate::i18n::Locale;
use crate::json::{Json, JsonView};
use crate::text;

verus! {

/// The query without its margins; empty where there is none.
pub open spec fn query_of(args: JsonView) -> Seq<char> {
    match args.str_at("query"@) {
        Some(q) => text::trimmed(q),
        None => text::trimmed(Seq::empty()),
    }
}

/// How many hits are wanted: at least one.
pub open spec fn top_k_of(args: JsonView, default: u64) -> u64 {
    match args.uint_at("top_k"@) {
        Some(0) => 1,
        Some(n) => n,
        None => default,
    }
}

/// Reads a query and how many hits are wanted. Without a query the call is wrong, and
/// `err_key` says so.
pub fn search_args(args: &Json, loc: &Locale, err_key: &str, default: u64) -> (r: Result<
    (String, u64),
    String,
>)
    ensures
        match r {
            Ok(a) => a.0@ == query_of(args@) && a.0@.len() > 0 && a.1 == top_k_of(args@, default),
            Err(e) => query_of(args@).len() == 0 && e@ == loc.text(err_key@),
        },
{
    let query: String = match args.get_str("query") {
        Some(q) => text::trim(q.as_str()),
        None => text::trim(String::new().as_str()),
    };
    if query.as_str().is_empty() {
        return Err(text::owned(loc.t(err_key)));
    }
    let k: u64 = match args.get_uint("top_k") {
        Some(n) => if n == 0 {
            1
        } else {
            n
        },
        None => default,
    };
    Ok((query, k))
}

/// The page that a read is asked for: the first where none is given.
pub open spec fn page_of(args: JsonView) -> u64 {
    match args.uint_at("page"@) {
        Some(n) => n,
        None => 1,
    }
}

/// The page that a read is asked for.
pub fn page_arg(args: &Json) -> (r: u64)
    ensures
        r == page_of(args@),
{
    match args.get_uint("page") {
        Some(n) => n,
        None => 1,
    }
}

} // verus!
