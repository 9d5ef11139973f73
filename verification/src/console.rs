//! The output of a process as text, and the same text taken apart again.

use vstd::prelude::*;
use crate::i18n::{Lang, Locale};
use crate::text;

verus! {

broadcast use text::views_push;

/// What a process printed, by section.
#[derive(Debug, PartialEq, Eq)]
pub struct Console {
    /// What was run and how it ended.
    pub command: String,
    pub stdout: String,
    pub stderr: String,
    pub exit: Option<i32>,
    /// What the call did with the files it left behind.
    pub files: String,
}

impl Default for Console {
    fn default() -> (r: Self)
        ensures
            r.command@.len() == 0,
            r.stdout@.len() == 0,
            r.stderr@.len() == 0,
            r.exit is None,
            r.files@.len() == 0,
    {
        Console {
            command: String::new(),
            stdout: String::new(),
            stderr: String::new(),
            exit: None,
            files: String::new(),
        }
    }
}

// ---------- writing ----------

/// The exit code that is shown: -1 where the process has none.
pub open spec fn shown_code(code: Option<i32>) -> int {
    match code {
        Some(n) => n as int,
        None => -1,
    }
}

/// The sections of a process result.
pub open spec fn console_parts(
    command: Option<Seq<char>>,
    stdout: Seq<char>,
    stderr: Seq<char>,
    success: bool,
    code: Option<i32>,
    loc: Locale,
) -> Seq<Seq<char>> {
    let p0 = Seq::<Seq<char>>::empty();
    let p1 = match command {
        Some(c) if text::trimmed(c).len() > 0 => p0.push("command:\n"@ + text::trimmed(c)),
        _ => p0,
    };
    let p2 = if text::is_blank(stdout) {
        p1
    } else {
        p1.push("stdout:\n"@ + stdout)
    };
    let p3 = if text::is_blank(stderr) {
        p2
    } else {
        p2.push("stderr:\n"@ + stderr)
    };
    if success {
        p3
    } else {
        p3.push(
            loc.text("python.console.exit"@) + " "@ + text::decimal_signed(shown_code(code)),
        )
    }
}

/// A process result as text.
pub open spec fn console_text(
    command: Option<Seq<char>>,
    stdout: Seq<char>,
    stderr: Seq<char>,
    success: bool,
    code: Option<i32>,
    loc: Locale,
) -> Seq<char> {
    let parts = console_parts(command, stdout, stderr, success, code, loc);
    if parts.len() == 0 {
        loc.text("python.console.empty"@)
    } else {
        text::joined(parts, "\n\n"@)
    }
}

pub open spec fn opt_view(s: Option<&str>) -> Option<Seq<char>> {
    match s {
        Some(t) => Some(t@),
        None => None,
    }
}

/// A process result as text. The streams come as they are to be shown.
pub fn format_console(
    command: Option<&str>,
    stdout: &str,
    stderr: &str,
    success: bool,
    code: Option<i32>,
    loc: &Locale,
) -> (r: String)
    ensures
        r@ == console_text(opt_view(command), stdout@, stderr@, success, code, *loc),
{
    let mut parts: Vec<String> = Vec::new();
    assert(text::views(parts@) =~= Seq::<Seq<char>>::empty());
    match command {
        Some(c) => {
            let line: String = text::trim(c);
            if !line.as_str().is_empty() {
                parts.push(text::cat2("command:\n", line.as_str()));
            }
        },
        None => {},
    }
    if !text::blank(stdout) {
        parts.push(text::cat2("stdout:\n", stdout));
    }
    if !text::blank(stderr) {
        parts.push(text::cat2("stderr:\n", stderr));
    }
    if !success {
        let n: i32 = match code {
            Some(n) => n,
            None => -1,
        };
        let shown: String = text::dec_signed(n);
        parts.push(text::cat3(loc.t("python.console.exit"), " ", shown.as_str()));
    }
    proof {
        assert(text::views(parts@).len() == parts@.len());
    }
    if parts.len() == 0 {
        text::owned(loc.t("python.console.empty"))
    } else {
        text::join(&parts, "\n\n")
    }
}

// ---------- reading ----------

/// The exit label in each language.
pub open spec fn exit_label(lang: Lang) -> Seq<char> {
    Locale { lang }.text("python.console.exit"@)
}

/// The exit label in each language.
pub fn exit_labels() -> (r: Vec<&'static str>)
    ensures
        r@.len() == 2,
        r@[0]@ == exit_label(Lang::Ru),
        r@[1]@ == exit_label(Lang::En),
{
    let mut r: Vec<&'static str> = Vec::new();
    r.push(Lang::Ru.locale().t("python.console.exit"));
    r.push(Lang::En.locale().t("python.console.exit"));
    r
}

/// What follows the first of the labels that the line begins with, from the one with
/// index `i` on.
pub open spec fn label_rest(line: Seq<char>, labels: Seq<Seq<char>>, i: int) -> Option<Seq<char>>
    decreases labels.len() - i,
{
    if i < 0 || i >= labels.len() {
        None
    } else if text::stands_at(line, labels[i], 0) {
        Some(line.skip(labels[i].len() as int))
    } else {
        label_rest(line, labels, i + 1)
    }
}

/// What follows the exit label, in whichever language it stands. `more` are the labels of
/// the languages that were added.
pub open spec fn exit_rest(line: Seq<char>, more: Seq<Seq<char>>) -> Option<Seq<char>> {
    if text::stands_at(line, exit_label(Lang::Ru), 0) {
        Some(line.skip(exit_label(Lang::Ru).len() as int))
    } else if text::stands_at(line, exit_label(Lang::En), 0) {
        Some(line.skip(exit_label(Lang::En).len() as int))
    } else {
        label_rest(line, more, 0)
    }
}

fn find_label(line: &str, labels: &Vec<String>) -> (r: Option<String>)
    ensures
        crate::json::opt_str(r) == label_rest(line@, text::views(labels@), 0),
{
    let ghost all = text::views(labels@);
    let mut i: usize = 0;
    while i < labels.len()
        invariant
            i <= labels.len(),
            all == text::views(labels@),
            label_rest(line@, all, i as int) == label_rest(line@, all, 0),
        decreases labels.len() - i,
    {
        assert(all[i as int] == labels@[i as int]@);
        match text::strip_prefix(line, labels[i].as_str()) {
            Some(rest) => {
                return Some(rest);
            },
            None => {},
        }
        i = i + 1;
    }
    None
}

#[derive(Debug, Clone, Copy, PartialEq, Eq, Structural)]
pub enum Section {
    Outside,
    Command,
    Stdout,
    Stderr,
    Files,
}

/// How far a result has been read.
#[verifier::ext_equal]
pub struct Reading {
    pub ok: bool,
    pub sec: Section,
    pub cmd: Seq<Seq<char>>,
    pub out: Seq<Seq<char>>,
    pub err: Seq<Seq<char>>,
    pub files: Seq<Seq<char>>,
    pub exit: Option<i32>,
}

pub open spec fn nothing_read() -> Reading {
    Reading {
        ok: true,
        sec: Section::Outside,
        cmd: Seq::empty(),
        out: Seq::empty(),
        err: Seq::empty(),
        files: Seq::empty(),
        exit: None,
    }
}

/// One more line. A line outside of all sections makes the text something else.
pub open spec fn read_line(st: Reading, line: Seq<char>, more: Seq<Seq<char>>) -> Reading {
    if line == "command:"@ {
        Reading { sec: Section::Command, ..st }
    } else if line == "stdout:"@ {
        Reading { sec: Section::Stdout, ..st }
    } else if line == "stderr:"@ {
        Reading { sec: Section::Stderr, ..st }
    } else if line == "files:"@ {
        Reading { sec: Section::Files, ..st }
    } else {
        match exit_rest(line, more) {
            Some(rest) => Reading {
                exit: text::int_of(text::trimmed(rest)),
                sec: Section::Outside,
                ..st
            },
            None => match st.sec {
                Section::Command => Reading { cmd: st.cmd.push(line), ..st },
                Section::Stdout => Reading { out: st.out.push(line), ..st },
                Section::Stderr => Reading { err: st.err.push(line), ..st },
                Section::Files => Reading { files: st.files.push(line), ..st },
                Section::Outside => if text::is_blank(line) {
                    st
                } else {
                    Reading { ok: false, ..st }
                },
            },
        }
    }
}

/// The lines read one after the other.
pub open spec fn read_lines(st: Reading, lines: Seq<Seq<char>>, more: Seq<Seq<char>>) -> Reading
    decreases lines.len(),
{
    if lines.len() == 0 {
        st
    } else {
        read_line(read_lines(st, lines.drop_last(), more), lines.last(), more)
    }
}

/// Without the blank lines at the end.
pub open spec fn without_blank_end(lines: Seq<Seq<char>>) -> Seq<Seq<char>>
    decreases lines.len(),
{
    if lines.len() > 0 && text::is_blank(lines.last()) {
        without_blank_end(lines.drop_last())
    } else {
        lines
    }
}

/// The lines of a section as its text.
pub open spec fn section_text(lines: Seq<Seq<char>>) -> Seq<char> {
    text::joined(without_blank_end(lines), "\n"@)
}

/// Joins the lines of a section, without the blank ones at the end.
pub fn join_trim(lines: &Vec<String>) -> (r: String)
    ensures
        r@ == section_text(text::views(lines@)),
{
    let mut n: usize = lines.len();
    let ghost all = text::views(lines@);
    assert(all.take(n as int) =~= all);
    while n > 0 && text::blank(lines[n - 1].as_str())
        invariant
            n <= lines.len(),
            all == text::views(lines@),
            without_blank_end(all.take(n as int)) == without_blank_end(all),
        decreases n,
    {
        assert(all.take(n as int).drop_last() =~= all.take(n - 1));
        assert(all.take(n as int).last() == lines@[n - 1]@);
        n = n - 1;
    }
    let mut kept: Vec<String> = Vec::new();
    let mut i: usize = 0;
    while i < n
        invariant
            i <= n <= lines.len(),
            all == text::views(lines@),
            text::views(kept@) =~= all.take(i as int),
        decreases n - i,
    {
        kept.push(lines[i].clone());
        i = i + 1;
    }
    proof {
        if n > 0 {
            assert(all.take(n as int).last() == lines@[n - 1]@);
        }
    }
    text::join(&kept, "\n")
}

impl Console {
    /// `self` is what reading `st` came to.
    pub open spec fn is_of(self, st: Reading) -> bool {
        &&& self.command@ == section_text(st.cmd)
        &&& self.stdout@ == section_text(st.out)
        &&& self.stderr@ == section_text(st.err)
        &&& self.files@ == section_text(st.files)
        &&& self.exit == st.exit
    }
}

/// Something was read, and nothing stood outside of the sections.
pub open spec fn is_console(st: Reading) -> bool {
    st.ok && (st.cmd.len() > 0 || st.out.len() > 0 || st.err.len() > 0 || st.files.len() > 0
        || st.exit is Some)
}

/// Takes a process result apart; nothing where the text is not one.
pub fn parse_console(result: &str) -> (r: Option<Console>)
    ensures
        ({
            let st = read_lines(nothing_read(), text::lines_of(result@), Seq::empty());
            match r {
                Some(c) => is_console(st) && c.is_of(st),
                None => !is_console(st),
            }
        }),
{
    let none: Vec<String> = Vec::new();
    assert(text::views(none@) =~= Seq::<Seq<char>>::empty());
    parse_console_with(result, &none)
}

/// Takes a process result apart that may be written in one of the languages that were
/// added: `more` are their exit labels.
pub fn parse_console_with(result: &str, more: &Vec<String>) -> (r: Option<Console>)
    ensures
        ({
            let st = read_lines(
                nothing_read(),
                text::lines_of(result@),
                text::views(more@),
            );
            match r {
                Some(c) => is_console(st) && c.is_of(st),
                None => !is_console(st),
            }
        }),
{
    let labels: Vec<&'static str> = exit_labels();
    let lines: Vec<String> = text::lines(result);
    let ghost all = text::views(lines@);
    let mut ok: bool = true;
    let mut sec: Section = Section::Outside;
    let mut cmd: Vec<String> = Vec::new();
    let mut out: Vec<String> = Vec::new();
    let mut err: Vec<String> = Vec::new();
    let mut files: Vec<String> = Vec::new();
    let mut exit: Option<i32> = None;
    let mut i: usize = 0;
    proof {
        assert(text::views(cmd@) =~= Seq::<Seq<char>>::empty());
        assert(text::views(out@) =~= Seq::<Seq<char>>::empty());
        assert(text::views(err@) =~= Seq::<Seq<char>>::empty());
        assert(text::views(files@) =~= Seq::<Seq<char>>::empty());
    }
    while i < lines.len()
        invariant
            i <= lines.len(),
            all == text::views(lines@),
            labels@.len() == 2,
            labels@[0]@ == exit_label(Lang::Ru),
            labels@[1]@ == exit_label(Lang::En),
            (Reading {
                ok,
                sec,
                cmd: text::views(cmd@),
                out: text::views(out@),
                err: text::views(err@),
                files: text::views(files@),
                exit,
            }) =~= read_lines(nothing_read(), all.take(i as int), text::views(more@)),
        decreases lines.len() - i,
    {
        proof {
            assert(all.take(i + 1).drop_last() =~= all.take(i as int));
            assert(all.take(i + 1).last() == lines@[i as int]@);
        }
        let line: String = lines[i].clone();
        if text::same(line.as_str(), "command:") {
            sec = Section::Command;
        } else if text::same(line.as_str(), "stdout:") {
            sec = Section::Stdout;
        } else if text::same(line.as_str(), "stderr:") {
            sec = Section::Stderr;
        } else if text::same(line.as_str(), "files:") {
            sec = Section::Files;
        } else {
            let first: Option<String> = text::strip_prefix(line.as_str(), labels[0]);
            let rest: Option<String> = match first {
                Some(x) => Some(x),
                None => match text::strip_prefix(line.as_str(), labels[1]) {
                    Some(x) => Some(x),
                    None => find_label(line.as_str(), more),
                },
            };
            match rest {
                Some(x) => {
                    exit = text::parse_int(text::trim(x.as_str()).as_str());
                    sec = Section::Outside;
                },
                None => match sec {
                    Section::Command => {
                        cmd.push(line);
                    },
                    Section::Stdout => {
                        out.push(line);
                    },
                    Section::Stderr => {
                        err.push(line);
                    },
                    Section::Files => {
                        files.push(line);
                    },
                    Section::Outside => {
                        if !text::blank(line.as_str()) {
                            ok = false;
                        }
                    },
                },
            }
        }
        i = i + 1;
    }
    proof {
        assert(all.take(i as int) =~= all);
        assert(text::views(cmd@).len() == cmd@.len());
        assert(text::views(out@).len() == out@.len());
        assert(text::views(err@).len() == err@.len());
        assert(text::views(files@).len() == files@.len());
    }
    if !ok || (cmd.len() == 0 && out.len() == 0 && err.len() == 0 && files.len() == 0
        && exit.is_none()) {
        return None;
    }
    Some(
        Console {
            command: join_trim(&cmd),
            stdout: join_trim(&out),
            stderr: join_trim(&err),
            exit,
            files: join_trim(&files),
        },
    )
}

} // verus!
