//! `code_list`, `code_read` and `code_grep`: looking at the attached project.

use vstd::prelude::*;
use crate::code::file::TextFile;
use crate::code::paths;
use crate::code::paths::CanonPath;
use crate::i18n::Locale;
use crate::json::Json;
use crate::outcome::ToolOutcome;
use crate::text;

verus! {

broadcast use text::views_push;

/// How many lines a read shows unless it is told otherwise.
pub const DEFAULT_READ_LINES: u64 = 400;

/// How many characters of a file a read shows at most.
pub const MAX_READ_CHARS: usize = 40_000;

/// How many entries a listing shows at most.
pub const MAX_LIST_ENTRIES: usize = 400;

/// How deep a listing goes unless it is told otherwise.
pub const DEFAULT_LIST_DEPTH: u64 = 2;

/// How many matches a search shows at most.
pub const MAX_GREP_HITS: usize = 100;

/// How many characters of a matching line a search shows.
pub const MAX_GREP_LINE: usize = 300;

/// Larger files are not read (bytes).
pub const MAX_FILE_BYTES: u64 = 2_097_152;

// ---------- arguments ----------

/// The natural number under `key`, written as a number or as a string.
pub open spec fn uint_arg(args: crate::json::JsonView, key: Seq<char>) -> Option<u64> {
    match args.uint_at(key) {
        Some(n) => Some(n),
        None => match args.str_at(key) {
            Some(s) => text::uint_of(text::trimmed(s)),
            None => None,
        },
    }
}

/// The natural number under `key`, written as a number or as a string.
pub fn arg_uint(args: &Json, key: &str) -> (r: Option<u64>)
    ensures
        r == uint_arg(args@, key@),
{
    match args.get_uint(key) {
        Some(n) => Some(n),
        None => match args.get_str(key) {
            Some(s) => text::parse_uint(text::trim(s.as_str()).as_str()),
            None => None,
        },
    }
}

/// The string under `key`, where it is more than white space.
pub open spec fn filled_arg(args: crate::json::JsonView, key: Seq<char>) -> Option<Seq<char>> {
    match args.str_at(key) {
        Some(s) if !text::is_blank(s) => Some(s),
        _ => None,
    }
}

/// The string under `key`, where it is more than white space.
pub fn arg_filled(args: &Json, key: &str) -> (r: Option<String>)
    ensures
        crate::json::opt_str(r) == filled_arg(args@, key@),
{
    match args.get_str(key) {
        Some(s) => if text::blank(s.as_str()) {
            None
        } else {
            Some(s)
        },
        None => None,
    }
}

/// The path argument of a tool that needs one.
pub fn path_arg(args: &Json, loc: &Locale) -> (r: Result<String, String>)
    ensures
        match r {
            Ok(p) => args@.str_at("path"@) == Some(p@),
            Err(e) => args@.str_at("path"@) is None && e@ == loc.text(
                "tool.code.err.path_required"@,
            ),
        },
{
    match args.get_str("path") {
        Some(p) => Ok(p),
        None => Err(text::owned(loc.t("tool.code.err.path_required"))),
    }
}

/// What a tool says without a project.
pub fn no_project(loc: &Locale) -> (r: String)
    ensures
        r@ == loc.text("tool.code.err.no_root"@),
{
    text::owned(loc.t("tool.code.err.no_root"))
}

// ---------- files ----------

/// A file as text: refused where it is too large or binary.
pub fn read_text(size: u64, bytes: &[u8], loc: &Locale) -> (r: Result<TextFile, String>)
    ensures
        match r {
            Ok(f) => size <= MAX_FILE_BYTES && !bytes@.contains(0) && f.is_load_of(bytes@),
            Err(e) => {
                ||| size > MAX_FILE_BYTES && e@ == loc.text1(
                    "tool.code.err.too_large"@,
                    "max"@,
                    text::decimal(2048),
                )
                ||| size <= MAX_FILE_BYTES && bytes@.contains(0) && e@ == loc.text(
                    "tool.code.err.binary"@,
                )
            },
        },
{
    if size > MAX_FILE_BYTES {
        let max: String = text::dec(MAX_FILE_BYTES / 1024);
        return Err(loc.tf1("tool.code.err.too_large", "max", max.as_str()));
    }
    match TextFile::load(bytes) {
        Some(f) => Ok(f),
        None => Err(text::owned(loc.t("tool.code.err.binary"))),
    }
}

/// What a search reads of an entry: nothing of what is no regular file, is too
/// large, cannot be read or is binary.
pub fn searchable(is_file: bool, size: Option<u64>, bytes: Option<Vec<u8>>) -> (r: Option<TextFile>)
    ensures
        match r {
            Some(f) => is_file && size is Some && size->0 <= MAX_FILE_BYTES && bytes is Some
                && !bytes->0@.contains(0) && f.is_load_of(bytes->0@),
            None => !is_file || size is None || size->0 > MAX_FILE_BYTES || bytes is None
                || bytes->0@.contains(0),
        },
{
    if !is_file {
        return None;
    }
    match size {
        Some(n) => if n > MAX_FILE_BYTES {
            return None;
        },
        None => {
            return None;
        },
    }
    match bytes {
        Some(b) => TextFile::load(b.as_slice()),
        None => None,
    }
}

// ---------- numbered lines ----------

/// A line as a read shows it: its number in six columns, an arrow, the text.
pub open spec fn numbered_row(number: nat, line: Seq<char>) -> Seq<char> {
    text::right_aligned(text::decimal(number), 6) + "\u{2192}"@ + line + "\n"@
}

/// The lines `from..to` as a read shows them.
pub open spec fn numbered_rows(lines: Seq<Seq<char>>, from: int, to: int) -> Seq<char>
    decreases to - from,
{
    if to <= from {
        Seq::empty()
    } else {
        numbered_rows(lines, from, to - 1) + numbered_row(to as nat, lines[to - 1])
    }
}

/// The lines `from..to` as a read shows them.
pub fn numbered(lines: &Vec<String>, from: usize, to: usize) -> (r: String)
    requires
        from <= to <= lines.len(),
    ensures
        r@ == numbered_rows(text::views(lines@), from as int, to as int),
{
    let mut out: String = String::new();
    let mut i: usize = from;
    while i < to
        invariant
            from <= i <= to <= lines.len(),
            out@ == numbered_rows(text::views(lines@), from as int, i as int),
        decreases to - i,
    {
        let number: String = text::dec_wide(i as u128 + 1);
        let column: String = text::align_right(number.as_str(), 6);
        let row: String = text::cat4(column.as_str(), "\u{2192}", lines[i].as_str(), "\n");
        out.push_str(row.as_str());
        i = i + 1;
    }
    out
}

// ---------- code_list ----------

/// One entry of a directory walk.
#[derive(Debug)]
pub struct Entry {
    pub depth: usize,
    pub is_dir: bool,
    pub path: CanonPath,
}

/// An entry by its path in the project, a directory with a slash behind it.
pub open spec fn entry_name(e: Entry, root: CanonPath) -> Seq<char> {
    if e.is_dir {
        paths::shown_path(e.path, root) + "/"@
    } else {
        paths::shown_path(e.path, root)
    }
}

/// The names of a walk, without the directory it began at.
pub open spec fn walked_names(walk: Seq<Entry>, root: CanonPath) -> Seq<Seq<char>>
    decreases walk.len(),
{
    if walk.len() == 0 {
        Seq::empty()
    } else {
        let before = walked_names(walk.drop_last(), root);
        if walk.last().depth == 0 {
            before
        } else {
            before.push(entry_name(walk.last(), root))
        }
    }
}

/// The first names of a walk.
pub open spec fn capped(names: Seq<Seq<char>>, max: int) -> Seq<Seq<char>> {
    if names.len() <= max {
        names
    } else {
        names.take(max)
    }
}

/// The names of a walk in order, as paths in the project, and whether the cap cut them
/// short.
pub fn collect_entries(walk: &Vec<Entry>, root: &CanonPath) -> (r: (Vec<String>, bool))
    ensures
        text::views(r.0@) == text::ordered(
            capped(walked_names(walk@, *root), MAX_LIST_ENTRIES as int),
        ),
        r.1 == (walked_names(walk@, *root).len() > MAX_LIST_ENTRIES),
{
    let mut names: Vec<String> = Vec::new();
    let mut truncated: bool = false;
    let mut i: usize = 0;
    assert(walk@.take(0) =~= Seq::<Entry>::empty());
    while i < walk.len()
        invariant
            i <= walk.len(),
            text::views(names@) =~= capped(
                walked_names(walk@.take(i as int), *root),
                MAX_LIST_ENTRIES as int,
            ),
            truncated == (walked_names(walk@.take(i as int), *root).len() > MAX_LIST_ENTRIES),
        decreases walk.len() - i,
    {
        let e: &Entry = &walk[i];
        assert(walk@.take(i + 1).drop_last() =~= walk@.take(i as int));
        assert(names@.len() == text::views(names@).len());
        if e.depth != 0 {
            if names.len() >= MAX_LIST_ENTRIES {
                truncated = true;
            } else {
                let rel: String = paths::display_rel(&e.path, root);
                if e.is_dir {
                    names.push(text::cat2(rel.as_str(), "/"));
                } else {
                    names.push(rel);
                }
            }
        }
        i = i + 1;
    }
    assert(walk@.take(i as int) =~= walk@);
    (text::sort(names), truncated)
}

/// How deep a listing goes.
pub open spec fn list_depth(args: crate::json::JsonView) -> u64 {
    let d = match uint_arg(args, "depth"@) {
        Some(n) => n,
        None => DEFAULT_LIST_DEPTH,
    };
    if d < 1 {
        1
    } else if d > 16 {
        16
    } else {
        d
    }
}

/// The directory to list, where one is given, and how deep to go.
pub fn list_args(args: &Json) -> (r: (Option<String>, u64))
    ensures
        crate::json::opt_str(r.0) == filled_arg(args@, "path"@),
        r.1 == list_depth(args@),
{
    let d: u64 = match arg_uint(args, "depth") {
        Some(n) => n,
        None => DEFAULT_LIST_DEPTH,
    };
    let depth: u64 = if d < 1 {
        1
    } else if d > 16 {
        16
    } else {
        d
    };
    (arg_filled(args, "path"), depth)
}

/// A directory as a listing names it: the root is a dot.
pub open spec fn shown_dir(dir: CanonPath, root: CanonPath) -> Seq<char> {
    let rel = paths::shown_path(dir, root);
    if rel.len() == 0 {
        "."@
    } else {
        rel
    }
}

/// What `code_list` answers.
pub open spec fn list_text(
    dir: CanonPath,
    root: CanonPath,
    walk: Seq<Entry>,
    loc: Locale,
) -> Seq<char> {
    let all = walked_names(walk, root);
    let shown = text::ordered(capped(all, MAX_LIST_ENTRIES as int));
    let head = loc.text2(
        "tool.code.list.header"@,
        "path"@,
        shown_dir(dir, root),
        "n"@,
        text::decimal(shown.len()),
    );
    if shown.len() == 0 {
        loc.text1("tool.code.list.empty"@, "path"@, shown_dir(dir, root))
    } else if all.len() > MAX_LIST_ENTRIES {
        head + "\n"@ + text::joined(shown, "\n"@) + "\n"@ + loc.text1(
            "tool.code.list.truncated"@,
            "max"@,
            text::decimal(MAX_LIST_ENTRIES as nat),
        )
    } else {
        head + "\n"@ + text::joined(shown, "\n"@)
    }
}

/// `code_list`: what lies below a directory, by its path in the project, so that each
/// name can be sent back as it stands.
pub fn list(dir: &CanonPath, root: &CanonPath, walk: &Vec<Entry>, loc: &Locale) -> (r: ToolOutcome)
    ensures
        r.says(list_text(*dir, *root, walk@, *loc)),
{
    let (entries, truncated) = collect_entries(walk, root);
    let rel: String = paths::display_rel(dir, root);
    let shown: String = if rel.as_str().is_empty() {
        text::owned(".")
    } else {
        rel
    };
    proof {
        assert(entries@.len() == text::views(entries@).len());
    }
    if entries.len() == 0 {
        return ToolOutcome::text(loc.tf1("tool.code.list.empty", "path", shown.as_str()));
    }
    let n: String = text::dec_usize(entries.len());
    let mut out: String = loc.tf2(
        "tool.code.list.header",
        "path",
        shown.as_str(),
        "n",
        n.as_str(),
    );
    out.push_str("\n");
    let names: String = text::join(&entries, "\n");
    out.push_str(names.as_str());
    if truncated {
        out.push_str("\n");
        let max: String = text::dec_usize(MAX_LIST_ENTRIES);
        let note: String = loc.tf1("tool.code.list.truncated", "max", max.as_str());
        out.push_str(note.as_str());
    }
    ToolOutcome::text(out)
}

// ---------- code_read ----------

/// The first line a read shows, counted from one.
pub open spec fn read_offset(args: crate::json::JsonView) -> int {
    match uint_arg(args, "offset"@) {
        Some(n) if n >= 1 => n as int,
        _ => 1,
    }
}

/// How many lines a read shows.
pub open spec fn read_limit(args: crate::json::JsonView) -> int {
    match uint_arg(args, "limit"@) {
        Some(n) if n >= 1 => n as int,
        Some(_) => 1,
        None => DEFAULT_READ_LINES as int,
    }
}

pub open spec fn lesser(a: int, b: int) -> int {
    if a <= b {
        a
    } else {
        b
    }
}

/// The line does not fit into a read.
pub open spec fn is_too_long(number: nat, line: Seq<char>) -> bool {
    numbered_row(number, line).len() > MAX_READ_CHARS
}

/// A line as a read shows it: of one that does not fit, as much as does.
pub open spec fn shown_row(number: nat, line: Seq<char>) -> Seq<char> {
    text::head_of(numbered_row(number, line), MAX_READ_CHARS as int)
}

/// The lines `from..to` as a read shows them.
pub open spec fn shown_rows(lines: Seq<Seq<char>>, from: int, to: int) -> Seq<char>
    decreases to - from,
{
    if to <= from {
        Seq::empty()
    } else {
        shown_rows(lines, from, to - 1) + shown_row(to as nat, lines[to - 1])
    }
}

/// What is said below a line that was cut.
pub open spec fn cut_note(number: nat, loc: Locale) -> Seq<char> {
    "\n"@ + loc.text2(
        "tool.code.read.cut"@,
        "n"@,
        text::decimal(number),
        "max"@,
        text::decimal(MAX_READ_CHARS as nat),
    ) + "\n"@
}

/// Where a window of lines ends that begins at `start` and may go on to `end`: as
/// many as fit into the cap, and one in any case. `at` is how far it is known to reach.
pub open spec fn fitting_end(lines: Seq<Seq<char>>, start: int, at: int, end: int) -> int
    decreases end - at,
{
    if at >= end || (at > start && shown_rows(lines, start, at + 1).len() > MAX_READ_CHARS) {
        at
    } else {
        fitting_end(lines, start, at + 1, end)
    }
}

/// Where the window ends that begins at the line with index `start`.
pub open spec fn window_end(lines: Seq<Seq<char>>, start: int, limit: int) -> int {
    fitting_end(lines, start, start, lesser(start + limit, lines.len() as int))
}

/// What `code_read` answers: the lines from the one with index `start` on, and the first
/// line that is left, where one is. A line that does not fit stands alone; it is cut, and
/// the answer says so.
pub open spec fn read_window(
    shown: Seq<char>,
    lines: Seq<Seq<char>>,
    start: int,
    limit: int,
    loc: Locale,
) -> Seq<char> {
    let total = lines.len() as int;
    let end = window_end(lines, start, limit);
    let head = loc.text4(
        "tool.code.read.header"@,
        "path"@,
        shown,
        "from"@,
        text::decimal((start + 1) as nat),
        "to"@,
        text::decimal(end as nat),
        "total"@,
        text::decimal(total as nat),
    );
    let body = shown_rows(lines, start, end);
    let rows = if end > start && is_too_long((start + 1) as nat, lines[start]) {
        body + cut_note((start + 1) as nat, loc)
    } else {
        body
    };
    if end < total {
        head + "\n"@ + rows + loc.text1(
            "tool.code.read.more"@,
            "next"@,
            text::decimal((end + 1) as nat),
        )
    } else {
        head + "\n"@ + rows
    }
}

proof fn fitting_end_is_bounded(lines: Seq<Seq<char>>, start: int, at: int, end: int)
    requires
        start <= at <= end,
    ensures
        at <= fitting_end(lines, start, at, end) <= end,
        start < end ==> start < fitting_end(lines, start, at, end),
    decreases end - at,
{
    if at < end && !(at > start && shown_rows(lines, start, at + 1).len() > MAX_READ_CHARS) {
        fitting_end_is_bounded(lines, start, at + 1, end);
    }
}

proof fn fitting_end_fits(lines: Seq<Seq<char>>, start: int, at: int, end: int)
    requires
        start <= at <= end,
        at > start + 1 ==> shown_rows(lines, start, at).len() <= MAX_READ_CHARS,
    ensures
        ({
            let e = fitting_end(lines, start, at, end);
            e > start + 1 ==> shown_rows(lines, start, e).len() <= MAX_READ_CHARS
        }),
    decreases end - at,
{
    if at < end && !(at > start && shown_rows(lines, start, at + 1).len() > MAX_READ_CHARS) {
        fitting_end_fits(lines, start, at + 1, end);
    }
}

proof fn one_row(lines: Seq<Seq<char>>, at: int)
    ensures
        shown_rows(lines, at, at + 1) == shown_row((at + 1) as nat, lines[at]),
{
    assert(shown_rows(lines, at, at) =~= Seq::<char>::empty());
    assert(shown_rows(lines, at, at + 1) =~= shown_row((at + 1) as nat, lines[at]));
}

/// The lines of a read keep to the cap, and a line is cut only where it is read alone.
pub proof fn a_read_keeps_to_the_cap(lines: Seq<Seq<char>>, start: int, limit: int)
    requires
        0 <= start < lines.len(),
        limit >= 1,
    ensures
        ({
            let end = window_end(lines, start, limit);
            &&& shown_rows(lines, start, end).len() <= MAX_READ_CHARS
            &&& end == start + 1 || forall|i: int|
                start <= i < end ==> !is_too_long((i + 1) as nat, #[trigger] lines[i])
        }),
{
    let most = lesser(start + limit, lines.len() as int);
    let end = window_end(lines, start, limit);
    fitting_end_is_bounded(lines, start, start, most);
    fitting_end_fits(lines, start, start, most);
    one_row(lines, start);
    if end > start + 1 {
        assert forall|i: int| start <= i < end implies !is_too_long(
            (i + 1) as nat,
            #[trigger] lines[i],
        ) by {
            rows_join(lines, start, i, end);
            rows_join(lines, i, i + 1, end);
            one_row(lines, i);
            let other = if i == start {
                i + 1
            } else {
                start
            };
            one_row(lines, other);
            row_is_filled((other + 1) as nat, lines[other]);
            if i == start {
                rows_join(lines, other, other + 1, end);
            } else {
                rows_join(lines, other, other + 1, i);
            }
        }
    }
}

proof fn row_is_filled(number: nat, line: Seq<char>)
    ensures
        shown_row(number, line).len() > 0,
{
    reveal_strlit("\n");
    assert(numbered_row(number, line).len() > 0);
}

/// What the reads show together that begin at the line with index `start` and go on at
/// the line that the one before names, until none is named.
pub open spec fn walked_rows(lines: Seq<Seq<char>>, start: int, limit: int) -> Seq<char>
    decreases lines.len() - start,
    when 0 <= start && limit >= 1
    via walking_goes_on
{
    if start >= lines.len() {
        Seq::empty()
    } else {
        let end = window_end(lines, start, limit);
        shown_rows(lines, start, end) + walked_rows(lines, end, limit)
    }
}

#[via_fn]
proof fn walking_goes_on(lines: Seq<Seq<char>>, start: int, limit: int) {
    if start < lines.len() {
        fitting_end_is_bounded(
            lines,
            start,
            start,
            lesser(start + limit, lines.len() as int),
        );
    }
}

proof fn rows_join(lines: Seq<Seq<char>>, from: int, mid: int, to: int)
    requires
        from <= mid <= to,
    ensures
        shown_rows(lines, from, mid) + shown_rows(lines, mid, to) == shown_rows(
            lines,
            from,
            to,
        ),
    decreases to - mid,
{
    if mid < to {
        rows_join(lines, from, mid, to - 1);
        assert(shown_rows(lines, from, mid) + (shown_rows(lines, mid, to - 1)
            + shown_row(to as nat, lines[to - 1])) =~= (shown_rows(lines, from, mid)
            + shown_rows(lines, mid, to - 1)) + shown_row(to as nat, lines[to - 1]));
    } else {
        assert(shown_rows(lines, from, mid) + shown_rows(lines, mid, to) =~= shown_rows(
            lines,
            from,
            to,
        ));
    }
}

proof fn rows_that_fit_are_whole(lines: Seq<Seq<char>>, from: int, to: int)
    requires
        forall|i: int| from <= i < to ==> !is_too_long((i + 1) as nat, #[trigger] lines[i]),
    ensures
        shown_rows(lines, from, to) == numbered_rows(lines, from, to),
    decreases to - from,
{
    if to > from {
        rows_that_fit_are_whole(lines, from, to - 1);
        assert(!is_too_long((to - 1 + 1) as nat, lines[to - 1]));
    }
}

/// Walking a file by the lines that the reads name shows every line from the first one
/// on, once, in order and under its own number; whole, but for a line that does not fit
/// into a read, of which the beginning is shown. Every line named is one that the next
/// read accepts, behind the one that this read began at.
pub proof fn walking_the_windows_reads_the_file(lines: Seq<Seq<char>>, start: int, limit: int)
    requires
        0 <= start < lines.len(),
        limit >= 1,
    ensures
        walked_rows(lines, start, limit) == shown_rows(lines, start, lines.len() as int),
        (forall|i: int|
            start <= i < lines.len() ==> !is_too_long((i + 1) as nat, #[trigger] lines[i]))
            ==> walked_rows(lines, start, limit) == numbered_rows(
            lines,
            start,
            lines.len() as int,
        ),
        start < window_end(lines, start, limit) <= lines.len(),
    decreases lines.len() - start,
{
    let end = window_end(lines, start, limit);
    fitting_end_is_bounded(lines, start, start, lesser(start + limit, lines.len() as int));
    if end < lines.len() {
        walking_the_windows_reads_the_file(lines, end, limit);
    } else {
        assert(walked_rows(lines, end, limit) =~= Seq::<char>::empty());
        assert(shown_rows(lines, end, lines.len() as int) =~= Seq::<char>::empty());
    }
    rows_join(lines, start, end, lines.len() as int);
    if forall|i: int|
        start <= i < lines.len() ==> !is_too_long((i + 1) as nat, #[trigger] lines[i]) {
        rows_that_fit_are_whole(lines, start, lines.len() as int);
    }
}

/// The lines that `code_read` is asked for: the first one, counted from one, and how
/// many. Nothing is asked for with less than one.
pub fn read_args(args: &Json) -> (r: (u64, u64))
    ensures
        r.0 == read_offset(args@),
        r.1 == read_limit(args@),
        r.0 >= 1 && r.1 >= 1,
{
    let offset: u64 = match arg_uint(args, "offset") {
        Some(n) => if n >= 1 {
            n
        } else {
            1
        },
        None => 1,
    };
    let limit: u64 = match arg_uint(args, "limit") {
        Some(n) => if n >= 1 {
            n
        } else {
            1
        },
        None => DEFAULT_READ_LINES,
    };
    (offset, limit)
}

/// `code_read`: a window of lines of a file with their numbers. A line that alone exceeds
/// the cap is read by itself and cut, which the answer says. An offset past the end of a
/// file is an error, which an empty file cannot answer: it has no lines to begin at but
/// the first.
pub fn read(
    path: &CanonPath,
    root: &CanonPath,
    file: &TextFile,
    offset: u64,
    limit: u64,
    loc: &Locale,
) -> (r: Result<ToolOutcome, String>)
    requires
        offset >= 1,
        text::lines_of(file.text@).len() > 0 || offset == 1,
    ensures
        ({
            let lines = text::lines_of(file.text@);
            let start = offset - 1;
            match r {
                Ok(o) => (start < lines.len() || lines.len() == 0) && o.says(
                    read_window(
                        paths::shown_path(*path, *root),
                        lines,
                        start,
                        limit as int,
                        *loc,
                    ),
                ),
                Err(e) => start >= lines.len() && lines.len() > 0 && e@ == loc.text1(
                    "tool.code.err.bad_offset"@,
                    "total"@,
                    text::decimal(lines.len()),
                ),
            }
        }),
{
    let lines: Vec<String> = text::lines(file.text.as_str());
    let total: usize = lines.len();
    proof {
        assert(lines@.len() == text::lines_of(file.text@).len()) by {
            assert(text::views(lines@).len() == lines@.len());
        }
    }
    let start: u64 = offset - 1;
    if start >= total as u64 && total > 0 {
        let n: String = text::dec_usize(total);
        return Err(loc.tf1("tool.code.err.bad_offset", "total", n.as_str()));
    }
    let from: usize = start as usize;
    let most: usize = if limit >= (total - from) as u64 {
        total
    } else {
        from + limit as usize
    };
    let ghost all = text::views(lines@);
    let mut body: String = String::new();
    let mut room: usize = MAX_READ_CHARS;
    let mut cut: bool = false;
    let mut end: usize = from;
    while end < most
        invariant_except_break
            from <= end <= most <= lines.len(),
            all == text::views(lines@),
            body@ == shown_rows(all, from as int, end as int),
            room + body@.len() == MAX_READ_CHARS,
            end > from ==> cut == is_too_long((from + 1) as nat, all[from as int]),
            end == from ==> !cut,
            fitting_end(all, from as int, end as int, most as int) == fitting_end(
                all,
                from as int,
                from as int,
                most as int,
            ),
        ensures
            from <= end <= most,
            end > from || from == most,
            end > from ==> cut == is_too_long((from + 1) as nat, all[from as int]),
            end == from ==> !cut,
            body@ == shown_rows(all, from as int, end as int),
            end == fitting_end(all, from as int, from as int, most as int),
        decreases most - end,
    {
        let whole: String = numbered(&lines, end, end + 1);
        assert(numbered_rows(all, end as int, end + 1) =~= numbered_row(
            (end + 1) as nat,
            all[end as int],
        )) by {
            assert(numbered_rows(all, end as int, end as int) =~= Seq::<char>::empty());
        }
        let row: String = text::head(whole.as_str(), MAX_READ_CHARS);
        assert(shown_rows(all, from as int, end + 1) == body@ + row@);
        let n: usize = text::length(row.as_str());
        if end > from && n > room {
            break;
        }
        if end == from {
            cut = text::length(whole.as_str()) > MAX_READ_CHARS;
        }
        body.push_str(row.as_str());
        room = room - n;
        end = end + 1;
    }
    let shown: String = paths::display_rel(path, root);
    let n_from: String = text::dec_wide(start as u128 + 1);
    let n_to: String = text::dec_usize(end);
    let n_total: String = text::dec_usize(total);
    let mut out: String = loc.tf4(
        "tool.code.read.header",
        "path",
        shown.as_str(),
        "from",
        n_from.as_str(),
        "to",
        n_to.as_str(),
        "total",
        n_total.as_str(),
    );
    out.push_str("\n");
    if cut {
        let max: String = text::dec_usize(MAX_READ_CHARS);
        let why: String = loc.tf2("tool.code.read.cut", "n", n_from.as_str(), "max", max.as_str());
        let note: String = text::cat3("\n", why.as_str(), "\n");
        body.push_str(note.as_str());
    }
    out.push_str(body.as_str());
    if end < total {
        let next: String = text::dec_wide(end as u128 + 1);
        let more: String = loc.tf1("tool.code.read.more", "next", next.as_str());
        out.push_str(more.as_str());
    }
    Ok(ToolOutcome::text(out))
}

} // verus!
