//! `code_search`: the attached project searched by meaning.
//!
//! A file is cut into windows of lines that overlap. A window is bounded by characters
//! first, since an embedder refuses an input that is too long, and by lines second;
//! what straddles the end of one window stands whole in the next.

use vstd::prelude::*;
use crate::json::{Json, JsonView};
use crate::notes::overview::Score;
use crate::order;
use crate::outcome::ToolOutcome;
use crate::search;
use crate::text;

verus! {

pub const CODE_SEARCH_ID: &'static str = "code_search";

/// How many lines a window has at most.
pub const CHUNK_LINES: usize = 40;

/// How many lines of a window the next one has again.
pub const CHUNK_OVERLAP: usize = 8;

/// How many characters a window of several lines has at most.
pub const CHUNK_MAX_CHARS: usize = 900;

/// How many bytes a file may have to be indexed.
pub const MAX_FILE_BYTES: u64 = 524_288;

/// How many passages a search gives unless it is told otherwise.
pub const DEFAULT_TOP_K: u64 = 8;

/// How many passages a search gives at most.
pub const MAX_TOP_K: u64 = 20;

// ---------- windows ----------

/// A window: its first and its last line, counted from one, and its text.
#[derive(Debug)]
pub struct Window {
    pub start: usize,
    pub end: usize,
    pub body: String,
}

/// What a [`Window`] holds.
#[verifier::ext_equal]
pub struct WindowView {
    pub start: int,
    pub end: int,
    pub body: Seq<char>,
}

impl View for Window {
    type V = WindowView;

    open spec fn view(&self) -> WindowView {
        WindowView { start: self.start as int, end: self.end as int, body: self.body@ }
    }
}

pub open spec fn window_views(v: Seq<Window>) -> Seq<WindowView> {
    v.map_values(|w: Window| w@)
}

/// Where a window that begins at `start`, has come to `end` and has `used` characters
/// ends.
pub open spec fn window_end(lines: Seq<Seq<char>>, start: int, end: int, used: int) -> int
    decreases lines.len() - end,
{
    if 0 <= end < lines.len() && end - start < CHUNK_LINES && (end <= start || used
        + lines[end].len() + 1 <= CHUNK_MAX_CHARS) {
        window_end(lines, start, end + 1, used + lines[end].len() + 1)
    } else {
        end
    }
}

/// The text of the lines from `start` to `end` under the path of their file.
pub open spec fn window_body(path: Seq<char>, lines: Seq<Seq<char>>, start: int, end: int) -> Seq<
    char,
>
    decreases end - start,
{
    if end <= start {
        path + "\n"@
    } else {
        window_body(path, lines, start, end - 1) + lines[end - 1] + "\n"@
    }
}

/// Where the window after one from `start` to `end` begins.
pub open spec fn next_start(start: int, end: int) -> int {
    if end - CHUNK_OVERLAP > start {
        end - CHUNK_OVERLAP
    } else {
        start + 1
    }
}

/// The end of the window that begins at `start`.
pub open spec fn end_from(path: Seq<char>, lines: Seq<Seq<char>>, start: int) -> int {
    window_end(lines, start, start, path.len() as int + 1)
}

/// The windows from `start` on.
pub open spec fn windows_from(path: Seq<char>, lines: Seq<Seq<char>>, start: int) -> Seq<WindowView>
    decreases lines.len() - start,
{
    if start < 0 || start >= lines.len() {
        Seq::empty()
    } else {
        let end = end_from(path, lines, start);
        let w = WindowView { start: start + 1, end, body: window_body(path, lines, start, end) };
        if end >= lines.len() {
            seq![w]
        } else {
            seq![w] + windows_from(path, lines, next_start(start, end))
        }
    }
}

/// A window ends behind where it begins, within the file, and has no more lines than
/// it may have.
proof fn window_end_bounds(lines: Seq<Seq<char>>, start: int, end: int, used: int)
    requires
        0 <= start <= end <= lines.len(),
        end - start <= CHUNK_LINES,
    ensures
        end <= window_end(lines, start, end, used) <= lines.len(),
        window_end(lines, start, end, used) - start <= CHUNK_LINES,
        start == end && start < lines.len() ==> window_end(lines, start, end, used) > start,
    decreases lines.len() - end,
{
    if end < lines.len() && end - start < CHUNK_LINES && (end <= start || used + lines[end].len()
        + 1 <= CHUNK_MAX_CHARS) {
        window_end_bounds(lines, start, end + 1, used + lines[end].len() + 1);
    }
}

fn cut_window(path: &str, lines: &Vec<String>, start: usize) -> (r: Window)
    requires
        start < lines.len(),
    ensures
        ({
            let all = text::views(lines@);
            let end = end_from(path@, all, start as int);
            r@ == (WindowView {
                start: start + 1,
                end,
                body: window_body(path@, all, start as int, end),
            })
        }),
        start < r.end <= lines.len(),
{
    let ghost all = text::views(lines@);
    assert(all.len() == lines@.len());
    let mut body: String = text::cat2(path, "\n");
    let ghost mut used: int = path@.len() as int + 1;
    let taken: usize = text::length(path);
    let mut room: usize = if taken < CHUNK_MAX_CHARS {
        CHUNK_MAX_CHARS - taken - 1
    } else {
        0
    };
    let mut end: usize = start;
    let mut open: bool = true;
    while open && end < lines.len() && end - start < CHUNK_LINES
        invariant
            start <= end <= lines.len(),
            start < lines.len(),
            end - start <= CHUNK_LINES,
            all == text::views(lines@),
            all.len() == lines@.len(),
            body@ == window_body(path@, all, start as int, end as int),
            room == (if used <= CHUNK_MAX_CHARS {
                CHUNK_MAX_CHARS - used
            } else {
                0
            }),
            open ==> window_end(all, start as int, end as int, used) == end_from(
                path@,
                all,
                start as int,
            ),
            !open ==> end == end_from(path@, all, start as int),
        decreases lines.len() - end, open as int,
    {
        assert(all[end as int] == lines@[end as int]@);
        let n: usize = text::length(lines[end].as_str());
        if end > start && n >= room {
            open = false;
        } else {
            body.push_str(lines[end].as_str());
            body.push_str("\n");
            proof {
                used = used + n + 1;
            }
            room = if n < room {
                room - n - 1
            } else {
                0
            };
            end = end + 1;
        }
    }
    proof {
        window_end_bounds(all, start as int, start as int, path@.len() as int + 1);
    }
    Window { start: start + 1, end, body }
}

/// The windows of a file.
pub fn windows(path: &str, body: &str) -> (r: Vec<Window>)
    ensures
        window_views(r@) == windows_from(path@, text::lines_of(body@), 0),
{
    let lines: Vec<String> = text::lines(body);
    let ghost all = text::views(lines@);
    assert(all.len() == lines@.len());
    let mut out: Vec<Window> = Vec::new();
    let mut start: usize = 0;
    let mut done: bool = lines.len() == 0;
    assert(window_views(out@) =~= Seq::<WindowView>::empty());
    assert(window_views(out@) + windows_from(path@, all, 0) =~= windows_from(path@, all, 0));
    while !done
        invariant
            all == text::views(lines@),
            all.len() == lines@.len(),
            all == text::lines_of(body@),
            !done ==> start < lines.len(),
            !done ==> window_views(out@) + windows_from(path@, all, start as int) == windows_from(
                path@,
                all,
                0,
            ),
            done ==> window_views(out@) == windows_from(path@, all, 0),
        decreases lines.len() - start, (!done) as int,
    {
        let ghost before = window_views(out@);
        let w: Window = cut_window(path, &lines, start);
        let end: usize = w.end;
        let ghost wv = w@;
        out.push(w);
        assert(window_views(out@) =~= before.push(wv));
        if end >= lines.len() {
            assert(before + seq![wv] =~= before.push(wv));
            done = true;
        } else {
            let next: usize = if end > CHUNK_OVERLAP && end - CHUNK_OVERLAP > start {
                end - CHUNK_OVERLAP
            } else {
                start + 1
            };
            assert(next == next_start(start as int, end as int));
            assert(before + (seq![wv] + windows_from(path@, all, next as int)) =~= before.push(wv)
                + windows_from(path@, all, next as int));
            start = next;
        }
    }
    out
}

/// Every line from the first on stands in a window.
pub proof fn every_line_is_covered(path: Seq<char>, lines: Seq<Seq<char>>, start: int, line: int)
    requires
        0 <= start <= line < lines.len(),
    ensures
        exists|i: int|
            0 <= i < windows_from(path, lines, start).len() && (#[trigger] windows_from(
                path,
                lines,
                start,
            )[i]).start <= line + 1 <= windows_from(path, lines, start)[i].end,
    decreases lines.len() - start,
{
    let all = windows_from(path, lines, start);
    let end = end_from(path, lines, start);
    window_end_bounds(lines, start, start, path.len() as int + 1);
    assert(all[0].start == start + 1 && all[0].end == end);
    if line >= end {
        let next = next_start(start, end);
        every_line_is_covered(path, lines, next, line);
        let rest = windows_from(path, lines, next);
        let i = choose|i: int|
            0 <= i < rest.len() && (#[trigger] rest[i]).start <= line + 1 <= rest[i].end;
        assert(all[i + 1] == rest[i]);
    }
}

/// A window begins inside the one before it, or right behind it, and behind where that
/// one begins; it has a line at least, and no more than it may have.
pub proof fn windows_overlap_and_advance(path: Seq<char>, lines: Seq<Seq<char>>, start: int, i: int)
    requires
        0 <= start < lines.len(),
        0 <= i < windows_from(path, lines, start).len(),
    ensures
        ({
            let w = windows_from(path, lines, start);
            &&& w[i].start <= w[i].end <= lines.len()
            &&& w[i].end - w[i].start < CHUNK_LINES
            &&& i > 0 ==> w[i - 1].start < w[i].start <= w[i - 1].end + 1
            &&& i == 0 ==> w[i].start == start + 1
            &&& i == w.len() - 1 ==> w[i].end == lines.len()
        }),
    decreases lines.len() - start,
{
    let all = windows_from(path, lines, start);
    let end = end_from(path, lines, start);
    window_end_bounds(lines, start, start, path.len() as int + 1);
    assert(all[0].start == start + 1 && all[0].end == end);
    if end < lines.len() {
        let next = next_start(start, end);
        let rest = windows_from(path, lines, next);
        if i > 0 {
            windows_overlap_and_advance(path, lines, next, i - 1);
            assert(all[i] == rest[i - 1]);
            if i > 1 {
                assert(all[i - 1] == rest[i - 2]);
            }
        }
    }
}

proof fn body_length(path: Seq<char>, lines: Seq<Seq<char>>, start: int, end: int, used: int)
    requires
        0 <= start <= end <= lines.len(),
        used == window_body(path, lines, start, end).len(),
        end - start <= CHUNK_LINES,
        used <= CHUNK_MAX_CHARS || end <= start + 1,
    ensures
        ({
            let last = window_end(lines, start, end, used);
            window_body(path, lines, start, last).len() <= CHUNK_MAX_CHARS || last <= start + 1
        }),
    decreases lines.len() - end,
{
    reveal_strlit("\n");
    if end < lines.len() && end - start < CHUNK_LINES && (end <= start || used + lines[end].len()
        + 1 <= CHUNK_MAX_CHARS) {
        body_length(path, lines, start, end + 1, used + lines[end].len() + 1);
    }
}

/// A window of more than one line keeps to the bound on its characters; a line that is
/// longer by itself has a window to itself.
pub proof fn windows_are_bounded(path: Seq<char>, lines: Seq<Seq<char>>, start: int, i: int)
    requires
        0 <= start < lines.len(),
        0 <= i < windows_from(path, lines, start).len(),
    ensures
        ({
            let w = windows_from(path, lines, start)[i];
            w.body.len() <= CHUNK_MAX_CHARS || w.start == w.end
        }),
    decreases lines.len() - start,
{
    let all = windows_from(path, lines, start);
    let end = end_from(path, lines, start);
    window_end_bounds(lines, start, start, path.len() as int + 1);
    if i == 0 {
        reveal_strlit("\n");
        assert(window_body(path, lines, start, start).len() == path.len() + 1);
        body_length(path, lines, start, start, path.len() as int + 1);
        assert(all[0].end == end);
    } else {
        let next = next_start(start, end);
        windows_are_bounded(path, lines, next, i - 1);
        assert(all[i] == windows_from(path, lines, next)[i - 1]);
    }
}

/// What is indexed of a file: nothing of one with a zero byte in it.
pub open spec fn indexed_windows(path: Seq<char>, bytes: Seq<u8>) -> Seq<WindowView> {
    if bytes.contains(0) {
        Seq::empty()
    } else {
        windows_from(
            path,
            text::lines_of(
                text::replaced(crate::code::file::utf8_lossy(bytes), "\r\n"@, "\n"@),
            ),
            0,
        )
    }
}

fn has_zero(bytes: &Vec<u8>) -> (r: bool)
    ensures
        r == bytes@.contains(0),
{
    let mut i: usize = 0;
    while i < bytes.len()
        invariant
            i <= bytes.len(),
            forall|j: int| 0 <= j < i ==> #[trigger] bytes@[j] != 0,
        decreases bytes.len() - i,
    {
        if bytes[i] == 0 {
            assert(bytes@[i as int] == 0);
            return true;
        }
        i = i + 1;
    }
    false
}

/// The windows of a file, by its bytes.
pub fn corpus(path: &str, bytes: &Vec<u8>) -> (r: Vec<Window>)
    ensures
        window_views(r@) == indexed_windows(path@, bytes@),
{
    if has_zero(bytes) {
        let none: Vec<Window> = Vec::new();
        assert(window_views(none@) =~= Seq::<WindowView>::empty());
        return none;
    }
    proof {
        reveal_strlit("\r\n");
    }
    let body: String = crate::code::file::from_utf8_lossy(bytes.as_slice());
    let plain: String = text::replace(body.as_str(), "\r\n", "\n");
    windows(path, plain.as_str())
}

/// The file is too large to be indexed.
pub fn too_large(bytes: u64) -> (r: bool)
    ensures
        r == (bytes > MAX_FILE_BYTES),
{
    bytes > MAX_FILE_BYTES
}

/// The name of the file that keeps the vectors of a corpus with this digest.
pub fn cache_name(digest: &str) -> (r: String)
    ensures
        r@ == "mindfork-code-search-probe-"@ + digest@ + ".json"@,
{
    text::cat3("mindfork-code-search-probe-", digest, ".json")
}

// ---------- code_search ----------

/// An indexed window of a file.
#[derive(Debug)]
pub struct Chunk {
    pub path: String,
    pub start: usize,
    pub end: usize,
    pub text: String,
}

/// The windows of a project.
#[derive(Debug)]
pub struct Index {
    pub chunks: Vec<Chunk>,
}

/// `code_search`.
#[derive(Debug, Clone, Copy)]
pub struct CodeSearch;

/// How many passages are asked for: at least one, and no more than a search gives.
pub open spec fn passages_wanted(args: JsonView) -> u64 {
    let k = search::top_k_of(args, DEFAULT_TOP_K);
    if k > MAX_TOP_K {
        MAX_TOP_K
    } else {
        k
    }
}

/// A passage as it is shown.
pub open spec fn passage_text(c: Chunk, score: Seq<char>) -> Seq<char> {
    "\n"@ + c.path@ + ":"@ + text::decimal(c.start as nat) + "-"@ + text::decimal(c.end as nat)
        + " (score "@ + score + ")\n"@ + c.text@ + "\n"@
}

pub open spec fn ranks(scores: Seq<Score>) -> Seq<i128> {
    scores.map_values(|s: Score| s.rank as i128)
}

/// The first `n` passages of an order.
pub open spec fn passages(chunks: Seq<Chunk>, scores: Seq<Score>, at: Seq<int>, n: int) -> Seq<char>
    decreases n,
{
    if n <= 0 {
        Seq::empty()
    } else {
        passages(chunks, scores, at, n - 1) + passage_text(
            chunks[at[n - 1]],
            scores[at[n - 1]].shown@,
        )
    }
}

fn show_passage(c: &Chunk, score: &str) -> (r: String)
    ensures
        r@ == passage_text(*c, score@),
{
    let start: String = text::dec_usize(c.start);
    let end: String = text::dec_usize(c.end);
    let mut r: String = text::cat6(
        "\n",
        c.path.as_str(),
        ":",
        start.as_str(),
        "-",
        end.as_str(),
    );
    r.push_str(" (score ");
    r.push_str(score);
    r.push_str(")\n");
    r.push_str(c.text.as_str());
    r.push_str("\n");
    r
}

impl CodeSearch {
    /// Reads the arguments of a search: the query, and how many passages are wanted.
    /// Without an index, or without a query, the call is wrong.
    pub fn arguments(&self, indexed: bool, args: &Json) -> (r: Result<(String, u64), String>)
        ensures
            match r {
                Ok(x) => indexed && (x.0)@ == search::query_of(args@) && (x.0)@.len() > 0 && x.1
                    == passages_wanted(args@) && 1 <= x.1 <= MAX_TOP_K,
                Err(e) => if !indexed {
                    e@ == "the project is not indexed"@
                } else {
                    search::query_of(args@).len() == 0 && e@ == "a query is required"@
                },
            },
    {
        if !indexed {
            return Err(text::owned("the project is not indexed"));
        }
        let query: String = match args.get_str("query") {
            Some(q) => text::trim(q.as_str()),
            None => text::trim(String::new().as_str()),
        };
        if query.as_str().is_empty() {
            return Err(text::owned("a query is required"));
        }
        let k: u64 = match args.get_uint("top_k") {
            Some(n) => if n == 0 {
                1
            } else {
                n
            },
            None => DEFAULT_TOP_K,
        };
        Ok(
            (
                query,
                if k > MAX_TOP_K {
                    MAX_TOP_K
                } else {
                    k
                },
            ),
        )
    }

    /// The answer: the passages most like the query, the most alike first. Each chunk
    /// of the index has a score.
    pub fn outcome(&self, index: &Index, scores: &Vec<Score>, query: &str, k: u64) -> (r:
        ToolOutcome)
        requires
            scores@.len() == index.chunks@.len(),
        ensures
            ({
                let at = order::falling(ranks(scores@), scores@.len() as int);
                r.says(
                    "Passages matching “"@ + query@ + "”:\n"@ + passages(
                        index.chunks@,
                        scores@,
                        at,
                        crate::code::look::lesser(at.len() as int, k as int),
                    ),
                )
            }),
    {
        let ghost all = ranks(scores@);
        let mut keys: Vec<i128> = Vec::new();
        let mut i: usize = 0;
        while i < scores.len()
            invariant
                i <= scores.len(),
                all == ranks(scores@),
                keys@ =~= all.take(i as int),
            decreases scores.len() - i,
        {
            keys.push(scores[i].rank as i128);
            i = i + 1;
        }
        assert(keys@ =~= all);
        let at: Vec<usize> = order::order_falling(&keys);
        let ghost idx = order::as_ints(at@);
        let mut out: String = text::cat3("Passages matching “", query, "”:\n");
        let ghost head = out@;
        let mut n: usize = 0;
        assert(out@ =~= head + Seq::<char>::empty());
        while n < at.len() && (n as u64) < k
            invariant
                n <= at.len(),
                n <= k,
                scores@.len() == index.chunks@.len(),
                idx == order::as_ints(at@),
                forall|j: int| 0 <= j < at@.len() ==> #[trigger] at@[j] < scores@.len(),
                out@ == head + passages(index.chunks@, scores@, idx, n as int),
            decreases at.len() - n,
        {
            let j: usize = at[n];
            assert(idx[n as int] == j as int);
            let row: String = show_passage(&index.chunks[j], scores[j].shown.as_str());
            out.push_str(row.as_str());
            assert(out@ =~= head + passages(index.chunks@, scores@, idx, n + 1));
            n = n + 1;
        }
        ToolOutcome::text(out)
    }
}

} // verus!
