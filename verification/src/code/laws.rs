//! What looking at a project and running its commands comes to, said of its files,
//! lines and streams.

use vstd::prelude::*;
use crate::code::command;
use crate::code::command::Ended;
use crate::code::file;
use crate::code::file::TextFile;
use crate::code::change;
use crate::code::change::EditArgs;
use crate::code::grep;
use crate::code::grep::{Matcher, Search};
use crate::code::look;
use crate::code::look::Entry;
use crate::code::paths;
use crate::code::paths::CanonPath;
use crate::console;
use crate::i18n::Locale;
use crate::json::JsonView;
use crate::text;
use crate::text_laws;

verus! {

// ---------- arguments ----------

/// A number may be written as a number or as a text of its digits, with margins.
pub proof fn numbers_may_be_texts(args: JsonView, key: Seq<char>, n: u64)
    ensures
        args.uint_at(key) == Some(n) ==> look::uint_arg(args, key) == Some(n),
        args.uint_at(key) is None && (args.str_at(key) matches Some(s) && text::trimmed(s)
            == text::decimal(n as nat)) ==> look::uint_arg(args, key) == Some(n),
        args.uint_at(key) is None && args.str_at(key) is None ==> look::uint_arg(args, key) is None,
{
    text_laws::a_written_number_is_read_back(n);
}

/// A read begins at the first line and has 400 lines where nothing is said, and never
/// less than one; a listing goes two levels down, and between one and 16 where it is told.
pub proof fn looking_is_bounded(args: JsonView)
    ensures
        look::uint_arg(args, "offset"@) is None ==> look::read_offset(args) == 1,
        look::uint_arg(args, "offset"@) matches Some(n) ==> look::read_offset(args) == if n == 0 {
            1
        } else {
            n as int
        },
        look::uint_arg(args, "limit"@) is None ==> look::read_limit(args) == 400,
        look::uint_arg(args, "limit"@) matches Some(n) ==> look::read_limit(args) == if n == 0 {
            1
        } else {
            n as int
        },
        look::uint_arg(args, "depth"@) is None ==> look::list_depth(args) == 2,
        look::uint_arg(args, "depth"@) matches Some(n) ==> {
            &&& 1 <= n <= 16 ==> look::list_depth(args) == n
            &&& n == 0 ==> look::list_depth(args) == 1
            &&& n > 16 ==> look::list_depth(args) == 16
        },
        look::MAX_FILE_BYTES == 2 * 1024 * 1024,
{
}

// ---------- reading ----------

/// Each line is shown behind its own number, counted from one, in six columns, with an
/// arrow between them; the lines in their order.
pub proof fn one_line_more_is_numbered(lines: Seq<Seq<char>>, from: int, to: int)
    requires
        0 <= from <= to < lines.len(),
    ensures
        look::numbered_rows(lines, from, from) == Seq::<char>::empty(),
        look::numbered_rows(lines, from, to + 1) == look::numbered_rows(lines, from, to)
            + text::right_aligned(text::decimal((to + 1) as nat), 6) + "→"@ + lines[to] + "\n"@,
{
    reveal_strlit("→");
    reveal_strlit("\u{2192}");
    assert("→"@ =~= "\u{2192}"@);
    let rows = look::numbered_rows(lines, from, to);
    let n = text::right_aligned(text::decimal((to + 1) as nat), 6);
    assert(rows + (n + "\u{2192}"@ + lines[to] + "\n"@) =~= rows + n + "→"@ + lines[to] + "\n"@);
}

/// A read shows the lines from the one it begins at, in their order, each whole unless
/// it alone is longer than a read may be, and then by its beginning.
pub proof fn one_line_more_is_read(lines: Seq<Seq<char>>, from: int, to: int)
    requires
        0 <= from <= to < lines.len(),
    ensures
        look::shown_rows(lines, from, from) == Seq::<char>::empty(),
        ({
            let row = look::numbered_rows(lines, to, to + 1);
            look::shown_rows(lines, from, to + 1) == look::shown_rows(lines, from, to) + if row.len()
                <= 40_000 {
                row
            } else {
                row.subrange(0, 40_000)
            }
        }),
{
    let row = look::numbered_row((to + 1) as nat, lines[to]);
    assert(look::numbered_rows(lines, to, to) =~= Seq::<char>::empty());
    assert(look::numbered_rows(lines, to, to + 1) =~= row);
    if row.len() > 40_000 {
        assert(row.take(40_000) =~= row.subrange(0, 40_000));
    }
}

/// A read goes on for as many lines as it was asked for, and stops before that only at
/// the file's end, or where the next line would not fit any more.
pub proof fn a_read_stops_only_when_full(lines: Seq<Seq<char>>, start: int, limit: int)
    requires
        0 <= start < lines.len(),
        limit >= 1,
    ensures
        ({
            let end = look::window_end(lines, start, limit);
            &&& start < end <= lines.len()
            &&& end - start <= limit
            &&& end == lines.len() || end - start == limit || look::shown_rows(
                lines,
                start,
                end + 1,
            ).len() > 40_000
        }),
{
    let most = look::lesser(start + limit, lines.len() as int);
    stops_only_when_full(lines, start, start, most);
    look::walking_the_windows_reads_the_file(lines, start, limit);
}

proof fn stops_only_when_full(lines: Seq<Seq<char>>, start: int, at: int, end: int)
    requires
        start <= at <= end,
    ensures
        ({
            let e = look::fitting_end(lines, start, at, end);
            at <= e <= end && (e == end || look::shown_rows(lines, start, e + 1).len() > 40_000)
        }),
    decreases end - at,
{
    if at < end && !(at > start && look::shown_rows(lines, start, at + 1).len() > 40_000) {
        stops_only_when_full(lines, start, at + 1, end);
    }
}

/// A read says which file it shows, from which line to which, and how many there are;
/// then the lines; and where some are left, the line to go on with: the next one.
pub proof fn a_read_says_where_it_is(
    shown: Seq<char>,
    lines: Seq<Seq<char>>,
    start: int,
    limit: int,
    loc: Locale,
)
    requires
        0 <= start < lines.len(),
        limit >= 1,
    ensures
        ({
            let end = look::window_end(lines, start, limit);
            let head = loc.text4(
                "tool.code.read.header"@,
                "path"@,
                shown,
                "from"@,
                text::decimal((start + 1) as nat),
                "to"@,
                text::decimal(end as nat),
                "total"@,
                text::decimal(lines.len()),
            ) + "\n"@ + look::shown_rows(lines, start, end);
            let cut = if look::numbered_rows(lines, start, start + 1).len() > 40_000 {
                "\n"@ + loc.text2(
                    "tool.code.read.cut"@,
                    "n"@,
                    text::decimal((start + 1) as nat),
                    "max"@,
                    text::decimal(40_000),
                ) + "\n"@
            } else {
                Seq::empty()
            };
            let more = if end < lines.len() {
                loc.text1("tool.code.read.more"@, "next"@, text::decimal((end + 1) as nat))
            } else {
                Seq::empty()
            };
            look::read_window(shown, lines, start, limit, loc) == head + cut + more
        }),
{
    let end = look::window_end(lines, start, limit);
    a_read_stops_only_when_full(lines, start, limit);
    let row = look::numbered_row((start + 1) as nat, lines[start]);
    assert(look::numbered_rows(lines, start, start) =~= Seq::<char>::empty());
    assert(look::numbered_rows(lines, start, start + 1) =~= row);
    let h = loc.text4(
        "tool.code.read.header"@,
        "path"@,
        shown,
        "from"@,
        text::decimal((start + 1) as nat),
        "to"@,
        text::decimal(end as nat),
        "total"@,
        text::decimal(lines.len()),
    );
    let body = look::shown_rows(lines, start, end);
    let cut = if row.len() > 40_000 {
        look::cut_note((start + 1) as nat, loc)
    } else {
        Seq::empty()
    };
    let more = if end < lines.len() {
        loc.text1("tool.code.read.more"@, "next"@, text::decimal((end + 1) as nat))
    } else {
        Seq::empty()
    };
    assert(look::read_window(shown, lines, start, limit, loc) =~= h + "\n"@ + body + cut + more);
}

// ---------- listing ----------

/// Every entry of a walk is named but the directory it began at, a directory with a
/// slash behind its name; in the order of the walk.
pub proof fn one_entry_more(walk: Seq<Entry>, e: Entry, root: CanonPath)
    ensures
        look::walked_names(Seq::empty(), root) == Seq::<Seq<char>>::empty(),
        look::walked_names(walk.push(e), root) == if e.depth == 0 {
            look::walked_names(walk, root)
        } else if e.is_dir {
            look::walked_names(walk, root).push(paths::shown_path(e.path, root) + "/"@)
        } else {
            look::walked_names(walk, root).push(paths::shown_path(e.path, root))
        },
{
    assert(walk.push(e).drop_last() =~= walk);
}

/// A listing shows the first 400 names in order, each as often as it came, and says how
/// many they are; where there are more it says that too.
pub proof fn a_listing_is_in_order(
    dir: CanonPath,
    root: CanonPath,
    walk: Seq<Entry>,
    loc: Locale,
)
    ensures
        ({
            let all = look::walked_names(walk, root);
            let first = if all.len() <= 400 {
                all
            } else {
                all.subrange(0, 400)
            };
            let shown = text::ordered(first);
            let rel = paths::shown_path(dir, root);
            let name = if rel.len() == 0 {
                "."@
            } else {
                rel
            };
            let list = loc.text2(
                "tool.code.list.header"@,
                "path"@,
                name,
                "n"@,
                text::decimal(shown.len()),
            ) + "\n"@ + text::joined(shown, "\n"@);
            &&& text::is_ordered(shown)
            &&& shown.to_multiset() == first.to_multiset()
            &&& all.len() == 0 ==> look::list_text(dir, root, walk, loc) == loc.text1(
                "tool.code.list.empty"@,
                "path"@,
                name,
            )
            &&& 0 < all.len() <= 400 ==> look::list_text(dir, root, walk, loc) == list
            &&& all.len() > 400 ==> look::list_text(dir, root, walk, loc) == list + "\n"@
                + loc.text1("tool.code.list.truncated"@, "max"@, text::decimal(400))
        }),
{
    let all = look::walked_names(walk, root);
    let first = look::capped(all, 400);
    text::ordered_is_a_permutation(first);
    if all.len() > 400 {
        assert(all.take(400) =~= all.subrange(0, 400));
    }
}

// ---------- searching ----------

/// A search shows each line that matches, and no other: behind its file and its number,
/// without the white space at its end, the first 300 characters of it.
pub proof fn one_line_more_is_searched(
    lines: Seq<Seq<char>>,
    matched: Seq<bool>,
    line: Seq<char>,
    hit: bool,
    prefix: Seq<char>,
)
    requires
        lines.len() == matched.len(),
    ensures
        grep::hit_rows(Seq::empty(), Seq::empty(), prefix) == Seq::<Seq<char>>::empty(),
        !hit ==> grep::hit_rows(lines.push(line), matched.push(hit), prefix) == grep::hit_rows(
            lines,
            matched,
            prefix,
        ),
        hit ==> ({
            let said = text::no_right_margin(line);
            let shown = if said.len() <= 300 {
                said
            } else {
                said.subrange(0, 300) + "…"@
            };
            grep::hit_rows(lines.push(line), matched.push(hit), prefix) == grep::hit_rows(
                lines,
                matched,
                prefix,
            ).push(prefix + ":"@ + text::decimal(lines.len() + 1) + ": "@ + shown)
        }),
{
    assert(lines.push(line).drop_last() =~= lines);
    assert(matched.push(hit).drop_last() =~= matched);
    let said = text::no_right_margin(line);
    if said.len() > 300 {
        assert(said.take(300) =~= said.subrange(0, 300));
    }
}

/// What matches in a file is decided line by line, by the pattern alone.
pub proof fn a_line_matches_by_the_pattern(m: Matcher, lines: Seq<Seq<char>>, i: int)
    requires
        0 <= i < lines.len(),
    ensures
        grep::found(m, lines).len() == lines.len(),
        grep::found(m, lines)[i] == grep::pattern_matches(
            m.pattern_spec(),
            m.any_case_spec(),
            lines[i],
        ),
{
}

/// A pattern that has a capital is meant as it is written, any other in either case.
pub proof fn capitals_decide_the_case(pattern: Seq<char>)
    ensures
        (exists|i: int| 0 <= i < pattern.len() && grep::is_upper(#[trigger] pattern[i]))
            ==> !grep::is_any_case(pattern),
        (forall|i: int| 0 <= i < pattern.len() ==> !grep::is_upper(#[trigger] pattern[i]))
            ==> grep::is_any_case(pattern),
{
}

/// A search that found something says how much and shows it, and where more than 100
/// lines match, that these are not all; one that found nothing tells whether there was
/// anything to search.
pub proof fn a_search_is_answered(s: Search, pattern: Seq<char>, glob: Option<Seq<char>>, loc: Locale)
    ensures
        look::MAX_GREP_HITS == 100,
        ({
            let files = match glob {
                Some(g) => g,
                None => "*"@,
            };
            let rows = loc.text2(
                "tool.code.grep.header"@,
                "pattern"@,
                pattern,
                "n"@,
                text::decimal(s.hits@.len()),
            ) + "\n"@ + text::joined(text::views(s.hits@), "\n"@);
            &&& s.hits@.len() == 0 && s.files == 0 ==> grep::grep_text(s, pattern, glob, loc)
                == loc.text2(
                "tool.code.grep.nothing_searched"@,
                "pattern"@,
                pattern,
                "glob"@,
                files,
            )
            &&& s.hits@.len() == 0 && s.files > 0 ==> grep::grep_text(s, pattern, glob, loc)
                == loc.text2("tool.code.grep.empty"@, "pattern"@, pattern, "glob"@, files)
            &&& s.hits@.len() > 0 && !s.truncated ==> grep::grep_text(s, pattern, glob, loc) == rows
            &&& s.hits@.len() > 0 && s.truncated ==> grep::grep_text(s, pattern, glob, loc) == rows
                + "\n"@ + loc.text1("tool.code.grep.truncated"@, "max"@, text::decimal(100))
        }),
{
}

// ---------- what a process printed ----------

/// Text before an escape stays as it is.
pub proof fn text_before_an_escape_stays(a: Seq<char>, s: Seq<char>)
    requires
        forall|i: int| 0 <= i < a.len() ==> #[trigger] a[i] != '\u{1b}',
    ensures
        command::without_ansi(a + s) == a + command::without_ansi(s),
    decreases a.len(),
{
    if a.len() == 0 {
        assert(a + s =~= s);
        assert(a + command::without_ansi(s) =~= command::without_ansi(s));
    } else {
        let t = a.skip(1);
        assert forall|i: int| 0 <= i < t.len() implies #[trigger] t[i] != '\u{1b}' by {
            assert(t[i] == a[i + 1]);
        }
        text_before_an_escape_stays(t, s);
        assert((a + s).skip(1) =~= t + s);
        assert((a + s)[0] == a[0]);
        assert(seq![a[0]] + (t + command::without_ansi(s)) =~= a + command::without_ansi(s));
    }
}

/// A control sequence is taken out whole: the escape, the bracket, what follows up to
/// its last character, and nothing behind that.
pub proof fn a_control_sequence_is_taken_out(body: Seq<char>, last: char, rest: Seq<char>)
    requires
        forall|i: int| 0 <= i < body.len() ==> !('@' <= #[trigger] body[i] <= '~'),
        '@' <= last <= '~',
    ensures
        command::without_ansi(seq!['\u{1b}', '['] + body.push(last) + rest)
            == command::without_ansi(rest),
{
    let s = seq!['\u{1b}', '['] + body.push(last) + rest;
    assert(s.skip(2) =~= body.push(last) + rest);
    csi_ends(body, last, rest);
}

proof fn csi_ends(body: Seq<char>, last: char, rest: Seq<char>)
    requires
        forall|i: int| 0 <= i < body.len() ==> !('@' <= #[trigger] body[i] <= '~'),
        '@' <= last <= '~',
    ensures
        command::after_csi(body.push(last) + rest) == rest,
    decreases body.len(),
{
    let s = body.push(last) + rest;
    if body.len() == 0 {
        assert(s[0] == last);
        assert(s.skip(1) =~= rest);
    } else {
        assert(s[0] == body[0]);
        let t = body.skip(1);
        assert forall|i: int| 0 <= i < t.len() implies !('@' <= #[trigger] t[i] <= '~') by {
            assert(t[i] == body[i + 1]);
        }
        csi_ends(t, last, rest);
        assert(s.skip(1) =~= t.push(last) + rest);
    }
}

/// A system command is taken out up to its bell, or to its escape and backslash.
pub proof fn a_system_command_is_taken_out(body: Seq<char>, rest: Seq<char>)
    requires
        forall|i: int| 0 <= i < body.len() ==> #[trigger] body[i] != '\u{7}' && body[i] != '\u{1b}',
    ensures
        command::without_ansi(seq!['\u{1b}', ']'] + body.push('\u{7}') + rest)
            == command::without_ansi(rest),
        command::without_ansi(seq!['\u{1b}', ']'] + body.push('\u{1b}').push('\\') + rest)
            == command::without_ansi(rest),
{
    let s = seq!['\u{1b}', ']'] + body.push('\u{7}') + rest;
    let t = seq!['\u{1b}', ']'] + body.push('\u{1b}').push('\\') + rest;
    assert(s.skip(2) =~= body.push('\u{7}') + rest);
    assert(t.skip(2) =~= body.push('\u{1b}').push('\\') + rest);
    osc_ends(body, rest);
}

proof fn osc_ends(body: Seq<char>, rest: Seq<char>)
    requires
        forall|i: int| 0 <= i < body.len() ==> #[trigger] body[i] != '\u{7}' && body[i] != '\u{1b}',
    ensures
        command::after_osc(body.push('\u{7}') + rest) == rest,
        command::after_osc(body.push('\u{1b}').push('\\') + rest) == rest,
    decreases body.len(),
{
    let s = body.push('\u{7}') + rest;
    let t = body.push('\u{1b}').push('\\') + rest;
    if body.len() == 0 {
        assert(s.skip(1) =~= rest);
        assert(t.skip(2) =~= rest);
    } else {
        let b = body.skip(1);
        assert(s[0] == body[0] && t[0] == body[0]);
        assert forall|i: int| 0 <= i < b.len() implies #[trigger] b[i] != '\u{7}' && b[i]
            != '\u{1b}' by {
            assert(b[i] == body[i + 1]);
        }
        osc_ends(b, rest);
        assert(s.skip(1) =~= b.push('\u{7}') + rest);
        assert(t.skip(1) =~= b.push('\u{1b}').push('\\') + rest);
    }
}

/// Any other escape is taken out with the one character behind it.
pub proof fn a_short_escape_is_taken_out(c: char, rest: Seq<char>)
    requires
        c != '[' && c != ']',
    ensures
        command::without_ansi(seq!['\u{1b}', c] + rest) == command::without_ansi(rest),
        command::without_ansi(seq!['\u{1b}']) == Seq::<char>::empty(),
{
    let s = seq!['\u{1b}', c] + rest;
    assert(s.skip(2) =~= rest);
}

/// A stream that is short enough stays whole; of a longer one as much is kept as may be,
/// half of it from either end, and it is said how many characters are gone.
pub proof fn a_stream_is_cut_in_the_middle(s: Seq<char>, max: nat, loc: Locale)
    ensures
        s.len() <= max ==> command::clipped(s, max, loc) == s,
        s.len() > max ==> ({
            let head = s.subrange(0, (max / 2) as int);
            let tail = s.subrange(s.len() - (max - max / 2), s.len() as int);
            &&& head.len() + tail.len() == max
            &&& command::clipped(s, max, loc) == head + "\n"@ + loc.text1(
                "tool.code.cmd.truncated"@,
                "n"@,
                text::decimal((s.len() - max) as nat),
            ) + "\n"@ + tail
        }),
{
    if s.len() > max {
        assert(s.take((max / 2) as int) =~= s.subrange(0, (max / 2) as int));
        assert(s.skip(s.len() - (max - max / 2)) =~= s.subrange(
            s.len() - (max - max / 2),
            s.len() as int,
        ));
    }
}

/// A run is answered with its line and how it ended, then both streams, each on its own
/// and without escapes. One that exited has its own success and code; one that was
/// stopped has no code to show.
pub proof fn a_run_is_answered(
    line: Seq<char>,
    secs: Seq<char>,
    timeout: u64,
    limit: usize,
    stdout: Seq<char>,
    stderr: Seq<char>,
    success: bool,
    code: Option<i32>,
    loc: Locale,
)
    ensures
        ({
            let room: nat = if limit < 200 {
                200
            } else {
                limit as nat
            };
            let out = command::clipped(command::without_ansi(stdout), room, loc);
            let err = command::clipped(command::without_ansi(stderr), room, loc);
            &&& command::run_text(
                line,
                Ended::Exited { success, code },
                secs,
                timeout,
                limit,
                stdout,
                stderr,
                loc,
            ) == console::console_text(
                Some(line + "\n"@ + loc.text1("tool.code.cmd.finished"@, "secs"@, secs)),
                out,
                err,
                success,
                code,
                loc,
            )
            &&& command::run_text(
                line,
                Ended::TimedOut,
                secs,
                timeout,
                limit,
                stdout,
                stderr,
                loc,
            ) == console::console_text(
                Some(
                    line + "\n"@ + loc.text1(
                        "tool.code.cmd.timed_out"@,
                        "secs"@,
                        text::decimal(timeout as nat),
                    ),
                ),
                out,
                err,
                true,
                None,
                loc,
            )
            &&& command::run_text(
                line,
                Ended::Cancelled,
                secs,
                timeout,
                limit,
                stdout,
                stderr,
                loc,
            ) == console::console_text(
                Some(line + "\n"@ + loc.text("tool.code.cmd.cancelled"@)),
                out,
                err,
                true,
                None,
                loc,
            )
        }),
{
}

// ---------- paths ----------

/// A path lies within the root where it is the root with more components behind it, or
/// none.
pub proof fn within_is_behind_the_root(path: CanonPath, root: CanonPath, rest: Seq<Seq<char>>)
    ensures
        path.anchor@ == root.anchor@ && text::views(path.parts@) == text::views(root.parts@) + rest
            ==> path.is_within(root),
        path.is_within(root) ==> path.anchor@ == root.anchor@ && exists|below: Seq<Seq<char>>|
            text::views(path.parts@) == #[trigger] (text::views(root.parts@) + below),
{
    let p = text::views(path.parts@);
    let r = text::views(root.parts@);
    if path.anchor@ == root.anchor@ && p == r + rest {
        assert((r + rest).take(r.len() as int) =~= r);
        assert(p.len() == path.parts@.len() && r.len() == root.parts@.len());
    }
    if path.is_within(root) {
        let below = p.skip(r.len() as int);
        assert(p =~= r + below);
    }
}

/// A path in the project is shown from the root on, its components with slashes between
/// them; the root itself is nothing.
pub proof fn a_path_is_shown_from_the_root(path: CanonPath, root: CanonPath, rest: Seq<Seq<char>>)
    requires
        path.anchor@ == root.anchor@,
        text::views(path.parts@) == text::views(root.parts@) + rest,
    ensures
        ({
            let plain = text::joined(rest, "/"@);
            &&& (forall|i: int| 0 <= i < plain.len() ==> #[trigger] plain[i] != '\\')
                ==> paths::shown_path(path, root) == plain
            &&& rest.len() == 0 ==> paths::shown_path(path, root) == Seq::<char>::empty()
        }),
{
    within_is_behind_the_root(path, root, rest);
    let p = text::views(path.parts@);
    let n = root.parts@.len() as int;
    assert(text::views(root.parts@).len() == n);
    assert(p.skip(n) =~= rest);
    let plain = text::joined(rest, "/"@);
    reveal_strlit("\\");
    if forall|i: int| 0 <= i < plain.len() ==> #[trigger] plain[i] != '\\' {
        let pieces = seq![plain];
        assert forall|j: int|
            0 <= j < plain.len() && j + "\\"@.len() <= plain.len() implies #[trigger] plain.subrange(
            j,
            j + "\\"@.len(),
        ) != "\\"@ by {
            assert(plain.subrange(j, j + 1)[0] == plain[j]);
            assert("\\"@[0] == '\\');
        }
        text_laws::every_occurrence_is_exchanged_once(pieces, "\\"@, "/"@);
    }
}

// ---------- editing ----------

/// An edit is answered with how many places it changed, and with the first of them: the
/// line in which the new text begins, the lines that it has, and three more on either
/// side as far as there are any.
pub proof fn an_edit_shows_its_place(
    body: Seq<char>,
    a: EditArgs,
    shown: Seq<char>,
    i: int,
    loc: Locale,
)
    requires
        ({
            let now = change::edited(body, a);
            let part = file::with_lf(a.new@);
            text::stands_at(now, part, i) && forall|j: int|
                0 <= j < i ==> !text::stands_at(now, part, j)
        }),
    ensures
        ({
            let now = change::edited(body, a);
            let part = file::with_lf(a.new@);
            let lines = text::lines_of(now);
            let above = text::split(now.subrange(0, i), '\n').len() - 1;
            let from = if above >= 3 {
                above - 3
            } else {
                0
            };
            let want = above + text::lines_of(part).len() + 3;
            let to = if want <= lines.len() {
                want
            } else {
                lines.len() as int
            };
            let n = if a.replace_all {
                text::occurrences(body, file::with_lf(a.old@))
            } else {
                1
            };
            change::edit_text(body, a, shown, loc) == loc.text2(
                "tool.code.edit.ok"@,
                "path"@,
                shown,
                "n"@,
                text::decimal(n),
            ) + "\n"@ + look::numbered_rows(lines, from, to)
        }),
{
    let now = change::edited(body, a);
    let part = file::with_lf(a.new@);
    text::find_is_first(now, part, 0);
    assert(text::find_from(now, part, 0) == i);
    assert(now.take(i) =~= now.subrange(0, i));
}

// ---------- writing ----------

/// A file that is written over keeps its mark and its line ends, and reads back as what
/// was written; a new one has neither. This leaves out a text with a zero character,
/// and, where there was no mark, one that begins with the mark's own character.
pub proof fn a_written_file_reads_back(
    bytes: Seq<u8>,
    existing: Option<Seq<u8>>,
    content: Seq<char>,
    g: TextFile,
)
    requires
        change::is_written(bytes, existing, content),
        g.is_load_of(bytes),
        !file::with_lf(content).contains('\0'),
        !text::occurs(file::with_lf(content), file::crlf()),
        file::with_lf(content).len() == 0 || file::with_lf(content)[0] != '\u{feff}',
    ensures
        g.text@ == file::with_lf(content),
        existing is None ==> !g.bom && !g.crlf,
        existing matches Some(old_bytes) && !old_bytes.contains(0) ==> g.bom == file::has_mark(
            existing->0,
        ),
{
    let body = file::with_lf(content);
    if existing is Some && !existing->0.contains(0) {
        let f = choose|f: TextFile| #[trigger]
            f.is_load_of(existing->0) && bytes == file::file_bytes(f.crlf, f.bom, body);
        file::reading_gives_back_what_was_written(f, body, g);
    } else {
        let f = TextFile { text: g.text, crlf: false, bom: false };
        assert(bytes == file::file_bytes(false, false, body));
        file::reading_gives_back_what_was_written(f, body, g);
    }
}

} // verus!
