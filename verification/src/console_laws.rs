//! What [`format_console`](crate::console::format_console) writes,
//! [`parse_console`](crate::console::parse_console) reads back.

use vstd::prelude::*;
use crate::console;
use crate::console::{Reading, Section};
use crate::i18n::{Lang, Locale};
use crate::text;

verus! {

/// The lines of a text, each without its carriage return; a text that ends with a
/// line feed has an empty last one.
pub open spec fn all_lines(s: Seq<char>) -> Seq<Seq<char>> {
    text::split(s, '\n').map_values(|p: Seq<char>| text::no_return(p))
}

/// No line of the text is taken for a section's head or for an exit code.
pub open spec fn is_plain(s: Seq<char>, more: Seq<Seq<char>>) -> bool {
    forall|i: int| 0 <= i < all_lines(s).len() ==> plain_line(#[trigger] all_lines(s)[i], more)
}

pub open spec fn plain_line(line: Seq<char>, more: Seq<Seq<char>>) -> bool {
    line != "command:"@ && line != "stdout:"@ && line != "stderr:"@ && line != "files:"@
        && console::exit_rest(line, more) is None
}

/// No label is empty.
pub open spec fn are_labels(more: Seq<Seq<char>>) -> bool {
    forall|i: int| 0 <= i < more.len() ==> (#[trigger] more[i]).len() > 0
}

/// A section as it is read back: carriage returns at the end of its lines and
/// blank lines at its own end are gone.
pub open spec fn tidy(s: Seq<char>) -> Seq<char> {
    console::section_text(all_lines(s))
}

proof fn read_append(st: Reading, a: Seq<Seq<char>>, b: Seq<Seq<char>>, more: Seq<Seq<char>>)
    ensures
        console::read_lines(st, a + b, more) == console::read_lines(
            console::read_lines(st, a, more),
            b,
            more,
        ),
    decreases b.len(),
{
    if b.len() == 0 {
        assert(a + b =~= a);
    } else {
        assert((a + b).drop_last() =~= a + b.drop_last());
        read_append(st, a, b.drop_last(), more);
    }
}

/// The lines put into the section that is open.
spec fn added(st: Reading, lines: Seq<Seq<char>>) -> Reading {
    match st.sec {
        Section::Command => Reading { cmd: st.cmd + lines, ..st },
        Section::Stdout => Reading { out: st.out + lines, ..st },
        Section::Stderr => Reading { err: st.err + lines, ..st },
        Section::Files => Reading { files: st.files + lines, ..st },
        Section::Outside => st,
    }
}

proof fn plain_lines_are_added(st: Reading, lines: Seq<Seq<char>>, more: Seq<Seq<char>>)
    requires
        !(st.sec is Outside),
        forall|i: int| 0 <= i < lines.len() ==> plain_line(#[trigger] lines[i], more),
    ensures
        console::read_lines(st, lines, more) =~= added(st, lines),
    decreases lines.len(),
{
    if lines.len() > 0 {
        let t = lines.drop_last();
        assert forall|i: int| 0 <= i < t.len() implies plain_line(#[trigger] t[i], more) by {
            assert(t[i] == lines[i]);
        }
        plain_lines_are_added(st, t, more);
        assert(plain_line(lines[lines.len() - 1], more));
        assert(t.push(lines.last()) =~= lines);
        assert(st.cmd + lines =~= (st.cmd + t).push(lines.last()));
        assert(st.out + lines =~= (st.out + t).push(lines.last()));
        assert(st.err + lines =~= (st.err + t).push(lines.last()));
        assert(st.files + lines =~= (st.files + t).push(lines.last()));
    } else {
        assert(st.cmd + lines =~= st.cmd);
        assert(st.out + lines =~= st.out);
        assert(st.err + lines =~= st.err);
        assert(st.files + lines =~= st.files);
    }
}

/// The lines of two texts with a line feed between them.
proof fn lines_around_feed(a: Seq<char>, b: Seq<char>)
    ensures
        all_lines(a.push('\n') + b) == all_lines(a) + all_lines(b),
{
    text::split_at_separator(a, '\n', b);
    assert(all_lines(a.push('\n') + b) =~= all_lines(a) + all_lines(b));
}

/// A text of one line.
proof fn one_line(s: Seq<char>)
    requires
        !s.contains('\n'),
        s.len() == 0 || s.last() != '\r',
    ensures
        all_lines(s) == seq![s],
{
    text::split_without_separator(s, '\n');
    assert(all_lines(s) =~= seq![s]);
}

/// The exit labels are no part of one another, nor of a section's head.
proof fn labels_known()
    ensures
        console::exit_label(Lang::Ru) == "код возврата:"@,
        console::exit_label(Lang::En) == "exit code:"@,
{
    reveal(Locale::text);
    assert(crate::i18n::entry_from("python.console.exit"@, 0) == 0);
}

proof fn heads_are_lines(more: Seq<Seq<char>>)
    requires
        are_labels(more),
    ensures
        all_lines("command:"@) == seq!["command:"@],
        all_lines("stdout:"@) == seq!["stdout:"@],
        all_lines("stderr:"@) == seq!["stderr:"@],
        "command:\n"@ == "command:"@.push('\n'),
        "stdout:\n"@ == "stdout:"@.push('\n'),
        "stderr:\n"@ == "stderr:"@.push('\n'),
        "stdout:"@ != "command:"@,
        "stderr:"@ != "command:"@,
        "stderr:"@ != "stdout:"@,
        plain_line(Seq::empty(), more),
{
    reveal_strlit("command:");
    reveal_strlit("stdout:");
    reveal_strlit("stderr:");
    reveal_strlit("files:");
    reveal_strlit("command:\n");
    reveal_strlit("stdout:\n");
    reveal_strlit("stderr:\n");
    reveal_strlit("код возврата:");
    reveal_strlit("exit code:");
    one_line("command:"@);
    one_line("stdout:"@);
    one_line("stderr:"@);
    assert("command:\n"@ =~= "command:"@.push('\n'));
    assert("stdout:\n"@ =~= "stdout:"@.push('\n'));
    assert("stderr:\n"@ =~= "stderr:"@.push('\n'));
    assert("stdout:"@[1] != "command:"@[1]);
    assert("stderr:"@[1] != "command:"@[1]);
    assert("stderr:"@[3] != "stdout:"@[3]);
    labels_known();
    no_label_on_an_empty_line(more, 0);
}

proof fn no_label_on_an_empty_line(more: Seq<Seq<char>>, i: int)
    requires
        are_labels(more),
        0 <= i,
    ensures
        console::label_rest(Seq::empty(), more, i) is None,
    decreases more.len() - i,
{
    if i < more.len() {
        assert(more[i].len() > 0);
        no_label_on_an_empty_line(more, i + 1);
    }
}

/// A text with more than white space in it has such a line.
proof fn text_has_line(s: Seq<char>)
    requires
        !text::is_blank(s),
    ensures
        exists|i: int| 0 <= i < all_lines(s).len() && !text::is_blank(#[trigger] all_lines(s)[i]),
    decreases s.len(),
{
    let t = s.drop_last();
    let c = s.last();
    let before = text::split(t, '\n');
    let after = text::split(s, '\n');
    text::split_is_not_empty(t, '\n');
    let n = before.len() - 1;
    if !text::is_blank(t) {
        text_has_line(t);
        let i = choose|i: int|
            0 <= i < all_lines(t).len() && !text::is_blank(#[trigger] all_lines(t)[i]);
        assert(all_lines(t)[i] == text::no_return(before[i]));
        if c == '\n' || i < n {
            assert(after[i] == before[i]);
            assert(all_lines(s)[i] == text::no_return(after[i]));
        } else {
            let old_line = before[n];
            let new_line = old_line.push(c);
            assert(after[n] == new_line);
            assert(all_lines(s)[n] == text::no_return(new_line));
            let k = choose|k: int|
                0 <= k < text::no_return(old_line).len() && !text::is_white(
                    #[trigger] text::no_return(old_line)[k],
                );
            assert(old_line[k] == text::no_return(old_line)[k]);
            assert(text::no_return(new_line)[k] == old_line[k]);
        }
    } else {
        assert(!text::is_white(c)) by {
            let k = choose|k: int| 0 <= k < s.len() && !text::is_white(#[trigger] s[k]);
            if k < t.len() {
                assert(t[k] == s[k]);
            }
        }
        let new_line = before[n].push(c);
        assert(after[n] == new_line);
        assert(all_lines(s)[n] == text::no_return(new_line));
        assert(text::no_return(new_line)[new_line.len() - 1] == c);
    }
}

proof fn line_stays(lines: Seq<Seq<char>>, i: int)
    requires
        0 <= i < lines.len(),
        !text::is_blank(lines[i]),
    ensures
        console::without_blank_end(lines).len() > i,
    decreases lines.len(),
{
    if text::is_blank(lines.last()) {
        assert(lines.drop_last()[i] == lines[i]);
        line_stays(lines.drop_last(), i);
    }
}

/// What a section holds once its text was read.
spec fn section_is(lines: Seq<Seq<char>>, body: Option<Seq<char>>) -> bool {
    match body {
        None => lines.len() == 0,
        Some(s) => console::without_blank_end(lines) == console::without_blank_end(all_lines(s))
            && console::without_blank_end(lines).len() > 0,
    }
}

/// These sections were read, and nothing else.
spec fn read_so_far(
    st: Reading,
    c: Option<Seq<char>>,
    o: Option<Seq<char>>,
    e: Option<Seq<char>>,
    x: Option<i32>,
) -> bool {
    &&& st.ok
    &&& st.files.len() == 0
    &&& st.exit == x
    &&& section_is(st.cmd, c)
    &&& section_is(st.out, o)
    &&& section_is(st.err, e)
    &&& !(st.sec is Files)
    &&& st.sec is Command ==> c is Some
    &&& st.sec is Stdout ==> o is Some
    &&& st.sec is Stderr ==> e is Some
}

proof fn blank_line_changes_nothing(
    st: Reading,
    c: Option<Seq<char>>,
    o: Option<Seq<char>>,
    e: Option<Seq<char>>,
    x: Option<i32>,
    more: Seq<Seq<char>>,
)
    requires
        are_labels(more),
    ensures
        read_so_far(st, c, o, e, x) <==> read_so_far(
            console::read_line(st, Seq::empty(), more),
            c,
            o,
            e,
            x,
        ),
{
    heads_are_lines(more);
    let blank = Seq::<char>::empty();
    let after = console::read_line(st, blank, more);
    assert(text::is_blank(blank));
    assert(st.cmd.push(blank).drop_last() =~= st.cmd);
    assert(st.out.push(blank).drop_last() =~= st.out);
    assert(st.err.push(blank).drop_last() =~= st.err);
    assert(console::without_blank_end(st.cmd.push(blank)) == console::without_blank_end(st.cmd));
    assert(console::without_blank_end(st.out.push(blank)) == console::without_blank_end(st.out));
    assert(console::without_blank_end(st.err.push(blank)) == console::without_blank_end(st.err));
}

proof fn body_fills_section(body: Seq<char>)
    requires
        !text::is_blank(body),
    ensures
        section_is(all_lines(body), Some(body)),
{
    text_has_line(body);
    let i = choose|i: int|
        0 <= i < all_lines(body).len() && !text::is_blank(#[trigger] all_lines(body)[i]);
    line_stays(all_lines(body), i);
}

proof fn command_is_read(st: Reading, body: Seq<char>, more: Seq<Seq<char>>)
    requires
        are_labels(more),
        read_so_far(st, None, None, None, None),
        !text::is_blank(body),
        is_plain(body, more),
    ensures
        read_so_far(
            console::read_lines(st, all_lines("command:\n"@ + body), more),
            Some(body),
            None,
            None,
            None,
        ),
{
    heads_are_lines(more);
    lines_around_feed("command:"@, body);
    let head = seq!["command:"@];
    read_append(st, head, all_lines(body), more);
    let opened = Reading { sec: Section::Command, ..st };
    assert(head.drop_last() =~= Seq::<Seq<char>>::empty());
    assert(console::read_lines(st, head.drop_last(), more) == st);
    assert(console::read_lines(st, head, more) == opened);
    plain_lines_are_added(opened, all_lines(body), more);
    assert(st.cmd + all_lines(body) =~= all_lines(body));
    body_fills_section(body);
}

proof fn stdout_is_read(st: Reading, c: Option<Seq<char>>, body: Seq<char>, more: Seq<Seq<char>>)
    requires
        are_labels(more),
        read_so_far(st, c, None, None, None),
        !text::is_blank(body),
        is_plain(body, more),
    ensures
        read_so_far(
            console::read_lines(st, all_lines("stdout:\n"@ + body), more),
            c,
            Some(body),
            None,
            None,
        ),
{
    heads_are_lines(more);
    lines_around_feed("stdout:"@, body);
    let head = seq!["stdout:"@];
    read_append(st, head, all_lines(body), more);
    let opened = Reading { sec: Section::Stdout, ..st };
    assert(head.drop_last() =~= Seq::<Seq<char>>::empty());
    assert(console::read_lines(st, head.drop_last(), more) == st);
    assert(console::read_lines(st, head, more) == opened);
    plain_lines_are_added(opened, all_lines(body), more);
    assert(st.out + all_lines(body) =~= all_lines(body));
    body_fills_section(body);
}

proof fn stderr_is_read(
    st: Reading,
    c: Option<Seq<char>>,
    o: Option<Seq<char>>,
    body: Seq<char>,
    more: Seq<Seq<char>>,
)
    requires
        are_labels(more),
        read_so_far(st, c, o, None, None),
        !text::is_blank(body),
        is_plain(body, more),
    ensures
        read_so_far(
            console::read_lines(st, all_lines("stderr:\n"@ + body), more),
            c,
            o,
            Some(body),
            None,
        ),
{
    heads_are_lines(more);
    lines_around_feed("stderr:"@, body);
    let head = seq!["stderr:"@];
    read_append(st, head, all_lines(body), more);
    let opened = Reading { sec: Section::Stderr, ..st };
    assert(head.drop_last() =~= Seq::<Seq<char>>::empty());
    assert(console::read_lines(st, head.drop_last(), more) == st);
    assert(console::read_lines(st, head, more) == opened);
    plain_lines_are_added(opened, all_lines(body), more);
    assert(st.err + all_lines(body) =~= all_lines(body));
    body_fills_section(body);
}

/// A blank before a text without white space goes when it is trimmed.
proof fn trimming_number(s: Seq<char>)
    requires
        s.len() > 0,
        forall|i: int| 0 <= i < s.len() ==> !text::is_white(#[trigger] s[i]),
    ensures
        text::trimmed(" "@ + s) == s,
{
    reveal_strlit(" ");
    let t = " "@ + s;
    assert(t[0] == ' ');
    assert(t.drop_first() =~= s);
    assert(!text::is_white(s[0]));
    assert(text::no_left_margin(s) == s);
    assert(text::no_left_margin(t) == s);
    assert(!text::is_white(s[s.len() - 1]));
}

proof fn exit_is_read(
    st: Reading,
    c: Option<Seq<char>>,
    o: Option<Seq<char>>,
    e: Option<Seq<char>>,
    n: i32,
    loc: Locale,
    more: Seq<Seq<char>>,
)
    requires
        are_labels(more),
        read_so_far(st, c, o, e, None),
    ensures
        ({
            let line = loc.text("python.console.exit"@) + " "@ + text::decimal_signed(n as int);
            &&& all_lines(line) == seq![line]
            &&& line.len() > 0
            &&& line.last() != '\r'
            &&& read_so_far(console::read_lines(st, all_lines(line), more), c, o, e, Some(n))
        }),
{
    labels_known();
    reveal_strlit("код возврата:");
    reveal_strlit("exit code:");
    reveal_strlit(" ");
    reveal_strlit("command:");
    reveal_strlit("stdout:");
    reveal_strlit("stderr:");
    reveal_strlit("files:");
    let label = loc.text("python.console.exit"@);
    let number = text::decimal_signed(n as int);
    let line = label + " "@ + number;
    text::int_reads_back(n);
    trimming_number(number);
    assert(label == console::exit_label(loc.lang));
    assert(!text::is_white(number[number.len() - 1]));
    assert(line.last() == number[number.len() - 1]);
    assert(!line.contains('\n')) by {
        if line.contains('\n') {
            let i = choose|i: int| 0 <= i < line.len() && line[i] == '\n';
            if i < label.len() {
                assert(label[i] == '\n');
            } else if i > label.len() {
                assert(number[i - label.len() - 1] == '\n');
                assert(!text::is_white(number[i - label.len() - 1]));
            }
        }
    }
    one_line(line);
    assert(line.subrange(0, label.len() as int) =~= label);
    assert(line.skip(label.len() as int) =~= " "@ + number);
    let ru = "код возврата:"@;
    let en = "exit code:"@;
    if loc.lang is En {
        assert(!text::stands_at(line, ru, 0)) by {
            if text::stands_at(line, ru, 0) {
                assert(line.subrange(0, ru.len() as int)[0] == line[0]);
                assert(line[0] == en[0]);
            }
        }
    }
    assert(console::exit_rest(line, more) == Some(" "@ + number));
    assert(line.len() > 7);
    assert(line[0] == label[0] && line[1] == label[1]);
    assert(line != "command:"@ && line != "stdout:"@ && line != "stderr:"@ && line != "files:"@);
    let one = seq![line];
    assert(one.drop_last() =~= Seq::<Seq<char>>::empty());
    assert(console::read_lines(st, one.drop_last(), more) == st);
    assert(console::read_lines(st, one, more) == console::read_line(st, line, more));
}

/// What the sections read one after the other come to.
spec fn parts_read(parts: Seq<Seq<char>>, more: Seq<Seq<char>>) -> Reading {
    if parts.len() == 0 {
        console::nothing_read()
    } else {
        console::read_lines(console::nothing_read(), all_lines(text::joined(parts, "\n\n"@)), more)
    }
}

/// The state in which the next section is read.
spec fn before_next(parts: Seq<Seq<char>>, more: Seq<Seq<char>>) -> Reading {
    if parts.len() == 0 {
        console::nothing_read()
    } else {
        console::read_line(parts_read(parts, more), Seq::empty(), more)
    }
}

proof fn one_more_part(parts: Seq<Seq<char>>, x: Seq<char>, more: Seq<Seq<char>>)
    ensures
        parts_read(parts.push(x), more) == console::read_lines(
            before_next(parts, more),
            all_lines(x),
            more,
        ),
{
    reveal_strlit("\n\n");
    let next = parts.push(x);
    assert(next.drop_last() =~= parts);
    if parts.len() > 0 {
        let a = text::joined(parts, "\n\n"@);
        let whole = text::joined(next, "\n\n"@);
        assert(whole =~= (a.push('\n') + Seq::empty()).push('\n') + x);
        lines_around_feed(a.push('\n') + Seq::empty(), x);
        lines_around_feed(a, Seq::empty());
        one_line(Seq::empty());
        let blank = seq![Seq::<char>::empty()];
        assert(all_lines(whole) =~= all_lines(a) + blank + all_lines(x));
        let start = console::nothing_read();
        read_append(start, all_lines(a) + blank, all_lines(x), more);
        read_append(start, all_lines(a), blank, more);
        assert(blank.drop_last() =~= Seq::<Seq<char>>::empty());
        let so_far = parts_read(parts, more);
        assert(console::read_lines(so_far, blank.drop_last(), more) == so_far);
    }
}

/// What a section of the text has become once it is read; an absent one is empty.
pub open spec fn section_back(body: Option<Seq<char>>) -> Seq<char> {
    match body {
        None => Seq::empty(),
        Some(s) => tidy(s),
    }
}

/// The section that a stream makes: none where it is blank.
pub open spec fn stream_section(s: Seq<char>) -> Option<Seq<char>> {
    if text::is_blank(s) {
        None
    } else {
        Some(s)
    }
}

/// The section that the command makes: none where there is none or it is blank.
pub open spec fn command_section(command: Option<Seq<char>>) -> Option<Seq<char>> {
    match command {
        Some(c) if text::trimmed(c).len() > 0 => Some(text::trimmed(c)),
        _ => None,
    }
}

proof fn trimmed_is_tight(s: Seq<char>)
    ensures
        text::trimmed(s).len() > 0 ==> !text::is_blank(text::trimmed(s)) && text::trimmed(s).last()
            != '\r',
{
    no_right_margin_is_tight(text::no_left_margin(s));
    let t = text::trimmed(s);
    if t.len() > 0 {
        assert(!text::is_white(t[t.len() - 1]));
    }
}

proof fn no_right_margin_is_tight(s: Seq<char>)
    ensures
        text::no_right_margin(s).len() > 0 ==> !text::is_white(text::no_right_margin(s).last()),
    decreases s.len(),
{
    if s.len() > 0 && text::is_white(s.last()) {
        no_right_margin_is_tight(s.drop_last());
    }
}

/// The lines of a text that does not end with a carriage return are all its lines,
/// but for an empty last one.
proof fn lines_or_one_more(s: Seq<char>)
    requires
        s.len() == 0 || s.last() != '\r',
    ensures
        text::lines_of(s) == all_lines(s) || text::lines_of(s).push(Seq::empty()) == all_lines(s),
{
    let parts = text::split(s, '\n');
    text::split_is_not_empty(s, '\n');
    let last = parts.last();
    if last.len() == 0 {
        assert(text::lines_of(s).push(Seq::empty()) =~= all_lines(s));
    } else {
        split_ends_like_text(s);
        assert(text::lines_of(s) =~= all_lines(s));
    }
}

proof fn split_ends_like_text(s: Seq<char>)
    ensures
        text::split(s, '\n').last().len() > 0 ==> s.len() > 0 && text::split(s, '\n').last().last()
            == s.last(),
{
    if s.len() > 0 {
        text::split_is_not_empty(s.drop_last(), '\n');
    }
}

proof fn joined_ends_like_last(parts: Seq<Seq<char>>)
    requires
        parts.len() > 0,
        parts.last().len() > 0,
    ensures
        text::joined(parts, "\n\n"@).len() > 0,
        text::joined(parts, "\n\n"@).last() == parts.last().last(),
{
}

/// A process result that was written is read back section by section: the command
/// without its margins, the streams, the exit code of a failure. Of each section
/// the carriage returns at the ends of its lines and the blank lines at its own end
/// are gone. This leaves out a text with a line that reads as a section's head or as
/// an exit code, and a stream that ends with a carriage return. Languages that were
/// added, with the exit labels `more`, do not disturb it.
pub proof fn a_written_console_is_read_back(
    command: Option<Seq<char>>,
    stdout: Seq<char>,
    stderr: Seq<char>,
    success: bool,
    code: Option<i32>,
    loc: Locale,
    more: Seq<Seq<char>>,
)
    requires
        are_labels(more),
        command_section(command) matches Some(c) ==> is_plain(c, more),
        is_plain(stdout, more),
        is_plain(stderr, more),
        stdout.len() == 0 || stdout.last() != '\r',
        stderr.len() == 0 || stderr.last() != '\r',
        console::console_parts(command, stdout, stderr, success, code, loc).len() > 0,
    ensures
        ({
            let written = console::console_text(command, stdout, stderr, success, code, loc);
            let st = console::read_lines(console::nothing_read(), text::lines_of(written), more);
            &&& console::is_console(st)
            &&& console::section_text(st.cmd) == section_back(command_section(command))
            &&& console::section_text(st.out) == section_back(stream_section(stdout))
            &&& console::section_text(st.err) == section_back(stream_section(stderr))
            &&& console::section_text(st.files) == Seq::<char>::empty()
            &&& st.exit == (if success {
                None::<i32>
            } else {
                Some(console::shown_code(code) as i32)
            })
        }),
{
    let start = console::nothing_read();
    let c = command_section(command);
    let o = stream_section(stdout);
    let e = stream_section(stderr);
    let p0 = Seq::<Seq<char>>::empty();
    assert(read_so_far(start, None, None, None, None));
    if command is Some {
        trimmed_is_tight(command->0);
    }
    // The command.
    let p1 = match c {
        Some(t) => p0.push("command:\n"@ + t),
        None => p0,
    };
    if let Some(t) = c {
        one_more_part(p0, "command:\n"@ + t, more);
        command_is_read(start, t, more);
    }
    assert(read_so_far(parts_read(p1, more), c, None, None, None));
    blank_line_changes_nothing(parts_read(p1, more), c, None, None, None, more);
    assert(read_so_far(before_next(p1, more), c, None, None, None));
    // The output.
    let p2 = match o {
        Some(t) => p1.push("stdout:\n"@ + t),
        None => p1,
    };
    if let Some(t) = o {
        one_more_part(p1, "stdout:\n"@ + t, more);
        stdout_is_read(before_next(p1, more), c, t, more);
    }
    assert(read_so_far(parts_read(p2, more), c, o, None, None));
    blank_line_changes_nothing(parts_read(p2, more), c, o, None, None, more);
    assert(read_so_far(before_next(p2, more), c, o, None, None));
    // The errors.
    let p3 = match e {
        Some(t) => p2.push("stderr:\n"@ + t),
        None => p2,
    };
    if let Some(t) = e {
        one_more_part(p2, "stderr:\n"@ + t, more);
        stderr_is_read(before_next(p2, more), c, o, t, more);
    }
    assert(read_so_far(parts_read(p3, more), c, o, e, None));
    blank_line_changes_nothing(parts_read(p3, more), c, o, e, None, more);
    // The exit code.
    let n = console::shown_code(code) as i32;
    let line = loc.text("python.console.exit"@) + " "@ + text::decimal_signed(n as int);
    let x = if success {
        None::<i32>
    } else {
        Some(n)
    };
    let p4 = if success {
        p3
    } else {
        p3.push(line)
    };
    if !success {
        one_more_part(p3, line, more);
        exit_is_read(before_next(p3, more), c, o, e, n, loc, more);
    }
    assert(read_so_far(parts_read(p4, more), c, o, e, x));
    assert(p4 == console::console_parts(command, stdout, stderr, success, code, loc));
    // The end of the text.
    let written = text::joined(p4, "\n\n"@);
    heads_are_lines(more);
    assert(p4.last().len() > 0 && p4.last().last() != '\r') by {
        if !success {
            exit_is_read(before_next(p3, more), c, o, e, n, loc, more);
        } else if e is Some {
            assert(("stderr:\n"@ + e->0).last() == stderr.last());
        } else if o is Some {
            assert(("stdout:\n"@ + o->0).last() == stdout.last());
        } else {
            assert(("command:\n"@ + c->0).last() == c->0.last());
        }
    }
    joined_ends_like_last(p4);
    lines_or_one_more(written);
    let st = console::read_lines(start, text::lines_of(written), more);
    if text::lines_of(written) != all_lines(written) {
        let lines = text::lines_of(written);
        assert(lines.push(Seq::empty()).drop_last() =~= lines);
        assert(parts_read(p4, more) == console::read_line(st, Seq::empty(), more));
        blank_line_changes_nothing(st, c, o, e, x, more);
    }
    assert(read_so_far(st, c, o, e, x));
    assert(st.files =~= Seq::<Seq<char>>::empty());
    if c is None {
        assert(st.cmd =~= Seq::<Seq<char>>::empty());
    }
    if o is None {
        assert(st.out =~= Seq::<Seq<char>>::empty());
    }
    if e is None {
        assert(st.err =~= Seq::<Seq<char>>::empty());
    }
    assert(c is Some ==> st.cmd.len() > 0);
    assert(o is Some ==> st.out.len() > 0);
    assert(e is Some ==> st.err.len() > 0);
}

} // verus!
