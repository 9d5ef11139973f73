//! `history_read` and `history_search`: the part of the conversation that has been
//! folded into a summary.
//!
//! The folded messages are read page by page, so that whoever walks all pages has
//! read everything; a search says which page to begin with.

use vstd::prelude::*;
use crate::i18n::Locale;
use crate::json::Json;
use crate::outcome::ToolOutcome;
use crate::search;
use crate::text;

verus! {

pub const HISTORY_READ_ID: &'static str = "history_read";

pub const HISTORY_SEARCH_ID: &'static str = "history_search";

/// How many hits a search gives unless it is told otherwise.
pub const DEFAULT_TOP_K: u64 = 5;

/// What is answered where nothing has been folded.
pub fn nothing_compressed(loc: &Locale) -> (r: ToolOutcome)
    ensures
        r.says(loc.text("tool.history.none"@)),
{
    ToolOutcome::text(text::owned(loc.t("tool.history.none")))
}

/// `history_read`.
pub struct HistoryRead;

/// A page of the folded part under its header; a page that is not there is answered
/// with how many there are.
pub open spec fn history_page(pages: Seq<String>, page: u64, loc: Locale) -> Seq<char> {
    let n = text::decimal(page as nat);
    let total = text::decimal(pages.len());
    if 1 <= page <= pages.len() {
        loc.text2("tool.history_read.header"@, "page"@, n, "total"@, total) + "\n"@ + pages[page
            - 1]@
    } else {
        loc.text2("tool.history_read.bad_page"@, "page"@, n, "total"@, total)
    }
}

impl HistoryRead {
    /// The answer, by the pages of the folded part.
    pub fn outcome(&self, pages: &Option<Vec<String>>, args: &Json, loc: &Locale) -> (r:
        ToolOutcome)
        ensures
            r.says(
                match *pages {
                    None => loc.text("tool.history.none"@),
                    Some(p) => history_page(p@, search::page_of(args@), *loc),
                },
            ),
    {
        match pages {
            None => nothing_compressed(loc),
            Some(p) => {
                let page: u64 = search::page_arg(args);
                let n: String = text::dec(page);
                let total: String = text::dec_usize(p.len());
                if page < 1 || page > p.len() as u64 {
                    return ToolOutcome::text(
                        loc.tf2(
                            "tool.history_read.bad_page",
                            "page",
                            n.as_str(),
                            "total",
                            total.as_str(),
                        ),
                    );
                }
                let head: String = loc.tf2(
                    "tool.history_read.header",
                    "page",
                    n.as_str(),
                    "total",
                    total.as_str(),
                );
                ToolOutcome::text(text::cat3(head.as_str(), "\n", p[(page - 1) as usize].as_str()))
            },
        }
    }
}

/// `history_search`.
pub struct HistorySearch;

/// How a search begins.
#[derive(Debug)]
pub enum SearchStart {
    /// Look for this, and show so many hits.
    Query { query: String, k: u64 },
    /// There is nothing to search.
    Answer(ToolOutcome),
}

/// A hit: the page it is on, and the text round the match.
#[derive(Debug)]
pub struct HistoryHit {
    pub page: u64,
    pub snippet: String,
}

/// What a search found.
#[derive(Debug)]
pub enum HistoryFound {
    /// The query is too short for the index.
    TooShort,
    /// The index cannot be read.
    Unavailable,
    /// The hits to show, and how many there are in all.
    Hits { shown: Vec<HistoryHit>, total: usize },
}

/// No message before `i` has the identifier of the `i`-th.
pub open spec fn is_first(folded: Seq<u128>, i: int) -> bool {
    forall|j: int| 0 <= j < i ==> #[trigger] folded[j] != folded[i]
}

/// The places of the messages that match, among the first `n` folded ones.
pub open spec fn matched(folded: Seq<u128>, hits: Seq<u128>, n: int) -> Seq<int>
    decreases n,
{
    if n <= 0 {
        Seq::empty()
    } else {
        let before = matched(folded, hits, n - 1);
        if hits.contains(folded[n - 1]) && is_first(folded, n - 1) {
            before.push(n - 1)
        } else {
            before
        }
    }
}

fn holds(v: &Vec<u128>, n: usize, id: u128) -> (r: bool)
    requires
        n <= v.len(),
    ensures
        r == (exists|j: int| 0 <= j < n && #[trigger] v@[j] == id),
{
    let mut j: usize = 0;
    while j < n
        invariant
            j <= n <= v.len(),
            forall|k: int| 0 <= k < j ==> #[trigger] v@[k] != id,
        decreases n - j,
    {
        if v[j] == id {
            assert(v@[j as int] == id);
            return true;
        }
        j = j + 1;
    }
    false
}

/// The places of the folded messages that match, in the order of the conversation.
/// What matches outside the folded part is passed over: it is in the context anyway.
/// Each message counts once, however often the index names it.
pub fn locate_hits(folded: &Vec<u128>, hits: &Vec<u128>) -> (r: Vec<usize>)
    ensures
        crate::order::as_ints(r@) == matched(folded@, hits@, folded@.len() as int),
        r@.len() <= folded@.len(),
{
    let mut r: Vec<usize> = Vec::new();
    let mut i: usize = 0;
    assert(crate::order::as_ints(r@) =~= Seq::<int>::empty());
    while i < folded.len()
        invariant
            i <= folded.len(),
            r@.len() <= i,
            crate::order::as_ints(r@) =~= matched(folded@, hits@, i as int),
        decreases folded.len() - i,
    {
        let id: u128 = folded[i];
        if holds(hits, hits.len(), id) && !holds(folded, i, id) {
            assert(hits@.contains(id));
            assert(is_first(folded@, i as int));
            let ghost before = crate::order::as_ints(r@);
            r.push(i);
            assert(crate::order::as_ints(r@) =~= before.push(i as int));
        } else {
            assert(!(hits@.contains(id) && is_first(folded@, i as int)));
        }
        i = i + 1;
    }
    r
}

/// The hits come in the order of the conversation, each of them is a message of the
/// folded part that matches, and none comes twice.
pub proof fn hits_are_in_order(folded: Seq<u128>, hits: Seq<u128>, n: int)
    requires
        0 <= n <= folded.len(),
    ensures
        forall|i: int|
            0 <= i < matched(folded, hits, n).len() ==> {
                let at = #[trigger] matched(folded, hits, n)[i];
                0 <= at < n && hits.contains(folded[at])
            },
        forall|i: int, j: int|
            0 <= i < j < matched(folded, hits, n).len() ==> {
                let x = #[trigger] matched(folded, hits, n)[i];
                let y = #[trigger] matched(folded, hits, n)[j];
                x < y && folded[x] != folded[y]
            },
    decreases n,
{
    if n > 0 {
        hits_are_in_order(folded, hits, n - 1);
        let before = matched(folded, hits, n - 1);
        let now = matched(folded, hits, n);
        assert forall|i: int| 0 <= i < now.len() implies {
            let at = #[trigger] now[i];
            0 <= at < n && hits.contains(folded[at])
        } by {
            if i < before.len() {
                assert(now[i] == before[i]);
            }
        }
        assert forall|i: int, j: int| 0 <= i < j < now.len() implies {
            let x = #[trigger] now[i];
            let y = #[trigger] now[j];
            x < y && folded[x] != folded[y]
        } by {
            assert(now[i] == before[i]);
            assert(0 <= before[i] < n - 1);
            if j < before.len() {
                assert(now[j] == before[j]);
            } else {
                assert(folded[before[i]] != folded[n - 1]);
            }
        }
    }
}

/// A message of the folded part that matches is among the hits.
pub proof fn every_match_is_found(folded: Seq<u128>, hits: Seq<u128>, n: int, id: u128)
    requires
        0 <= n <= folded.len(),
        hits.contains(id),
        folded.take(n).contains(id),
    ensures
        exists|i: int|
            0 <= i < matched(folded, hits, n).len() && folded[#[trigger] matched(
                folded,
                hits,
                n,
            )[i]] == id,
    decreases n,
{
    let k = choose|k: int| 0 <= k < n && folded.take(n)[k] == id;
    assert(folded[k] == id);
    let before = matched(folded, hits, n - 1);
    let now = matched(folded, hits, n);
    if k < n - 1 {
        assert(folded.take(n - 1)[k] == id);
        every_match_is_found(folded, hits, n - 1, id);
        let i = choose|i: int| 0 <= i < before.len() && folded[#[trigger] before[i]] == id;
        assert(now[i] == before[i]);
    } else if is_first(folded, n - 1) {
        assert(now.last() == n - 1);
        assert(now[now.len() - 1] == n - 1);
    } else {
        let j = choose|j: int| 0 <= j < n - 1 && #[trigger] folded[j] == folded[n - 1];
        assert(folded.take(n - 1)[j] == id);
        every_match_is_found(folded, hits, n - 1, id);
        let i = choose|i: int| 0 <= i < before.len() && folded[#[trigger] before[i]] == id;
        assert(now[i] == before[i]);
    }
}

/// The first `n` hits, numbered, each under the page it is on.
pub open spec fn hit_rows(hits: Seq<HistoryHit>, n: int, loc: Locale) -> Seq<char>
    decreases n,
{
    if n <= 0 {
        Seq::empty()
    } else {
        hit_rows(hits, n - 1, loc) + "\n\n"@ + loc.text2(
            "tool.history_search.hit"@,
            "n"@,
            text::decimal(n as nat),
            "page"@,
            text::decimal(hits[n - 1].page as nat),
        ) + "\n"@ + hits[n - 1].snippet@
    }
}

fn list_rows(hits: &Vec<HistoryHit>, loc: &Locale) -> (r: String)
    ensures
        r@ == hit_rows(hits@, hits@.len() as int, *loc),
{
    let mut r: String = String::new();
    let mut i: usize = 0;
    while i < hits.len()
        invariant
            i <= hits.len(),
            r@ == hit_rows(hits@, i as int, *loc),
        decreases hits.len() - i,
    {
        let n: String = text::dec_usize(i + 1);
        let page: String = text::dec(hits[i].page);
        let head: String = loc.tf2(
            "tool.history_search.hit",
            "n",
            n.as_str(),
            "page",
            page.as_str(),
        );
        r.push_str("\n\n");
        r.push_str(head.as_str());
        r.push_str("\n");
        r.push_str(hits[i].snippet.as_str());
        i = i + 1;
    }
    r
}

impl HistorySearch {
    /// Reads the arguments of a search. Where nothing has been folded, that is the
    /// answer; a call without a query is wrong.
    pub fn start(&self, folded: bool, args: &Json, loc: &Locale) -> (r: Result<SearchStart, String>)
        ensures
            match r {
                Ok(SearchStart::Answer(o)) => !folded && o.says(loc.text("tool.history.none"@)),
                Ok(SearchStart::Query { query, k }) => folded && query@ == search::query_of(args@)
                    && query@.len() > 0 && k == search::top_k_of(args@, DEFAULT_TOP_K),
                Err(e) => folded && search::query_of(args@).len() == 0 && e@ == loc.text(
                    "tool.history_search.err.query_empty"@,
                ),
            },
    {
        if !folded {
            return Ok(SearchStart::Answer(nothing_compressed(loc)));
        }
        match search::search_args(
            args,
            loc,
            "tool.history_search.err.query_empty",
            DEFAULT_TOP_K,
        ) {
            Ok((query, k)) => Ok(SearchStart::Query { query, k }),
            Err(e) => Err(e),
        }
    }

    /// Which of the matches are shown: the first `k`, in the order of the
    /// conversation. Also says how many there are.
    pub fn select(&self, folded: &Vec<u128>, hits: &Vec<u128>, k: u64) -> (r: (Vec<usize>, usize))
        ensures
            ({
                let all = matched(folded@, hits@, folded@.len() as int);
                crate::order::as_ints(r.0@) == all.take(
                    crate::code::look::lesser(all.len() as int, k as int),
                ) && r.1 == all.len()
            }),
    {
        let all: Vec<usize> = locate_hits(folded, hits);
        let ghost found = crate::order::as_ints(all@);
        let total: usize = all.len();
        let mut shown: Vec<usize> = Vec::new();
        let mut i: usize = 0;
        assert(crate::order::as_ints(shown@) =~= found.take(0));
        while i < all.len() && (i as u64) < k
            invariant
                i <= all.len(),
                i <= k,
                found == crate::order::as_ints(all@),
                crate::order::as_ints(shown@) =~= found.take(i as int),
            decreases all.len() - i,
        {
            let ghost before = crate::order::as_ints(shown@);
            shown.push(all[i]);
            assert(crate::order::as_ints(shown@) =~= before.push(all@[i as int] as int));
            i = i + 1;
        }
        (shown, total)
    }

    /// The answer, by what was found.
    pub fn outcome(&self, found: &HistoryFound, loc: &Locale) -> (r: ToolOutcome)
        ensures
            r.says(
                match *found {
                    HistoryFound::TooShort => loc.text("tool.history_search.too_short"@),
                    HistoryFound::Unavailable => loc.text("tool.history_search.unavailable"@),
                    HistoryFound::Hits { shown, total } => if total == 0 {
                        loc.text("tool.history_search.empty"@)
                    } else {
                        loc.text2(
                            "tool.history_search.header"@,
                            "n"@,
                            text::decimal(shown@.len()),
                            "total"@,
                            text::decimal(total as nat),
                        ) + hit_rows(shown@, shown@.len() as int, *loc) + "\n\n"@ + loc.text(
                            "tool.history_search.hint"@,
                        )
                    },
                },
            ),
    {
        match found {
            HistoryFound::TooShort => ToolOutcome::text(
                text::owned(loc.t("tool.history_search.too_short")),
            ),
            HistoryFound::Unavailable => ToolOutcome::text(
                text::owned(loc.t("tool.history_search.unavailable")),
            ),
            HistoryFound::Hits { shown, total } => {
                if *total == 0 {
                    return ToolOutcome::text(text::owned(loc.t("tool.history_search.empty")));
                }
                let n: String = text::dec_usize(shown.len());
                let all: String = text::dec_usize(*total);
                let head: String = loc.tf2(
                    "tool.history_search.header",
                    "n",
                    n.as_str(),
                    "total",
                    all.as_str(),
                );
                let rows: String = list_rows(shown, loc);
                ToolOutcome::text(
                    text::cat4(
                        head.as_str(),
                        rows.as_str(),
                        "\n\n",
                        loc.t("tool.history_search.hint"),
                    ),
                )
            },
        }
    }
}

} // verus!
