//! `code_build`, `code_run` and `code_test`: running a line that the user wrote.

use vstd::prelude::*;
use crate::code::file;
use crate::code::{CommandSlot, Workspace};
use crate::console;
use crate::i18n::Locale;
use crate::outcome::ToolOutcome;
use crate::text;

verus! {

broadcast use text::views_push;

// ---------- escape sequences ----------

pub const ESC: char = '\u{1b}';

pub const BEL: char = '\u{7}';

/// What follows a control sequence: it ends with a character from `@` to `~`.
pub open spec fn after_csi(s: Seq<char>) -> Seq<char>
    decreases s.len(),
{
    if s.len() == 0 {
        s
    } else if '@' <= s[0] <= '~' {
        s.skip(1)
    } else {
        after_csi(s.skip(1))
    }
}

/// What follows a system command: it ends with a bell, or with an escape and a backslash.
pub open spec fn after_osc(s: Seq<char>) -> Seq<char>
    decreases s.len(),
{
    if s.len() == 0 {
        s
    } else if s[0] == BEL {
        s.skip(1)
    } else if s[0] == ESC && s.len() > 1 && s[1] == '\\' {
        s.skip(2)
    } else {
        after_osc(s.skip(1))
    }
}

proof fn sequences_end(s: Seq<char>)
    ensures
        after_csi(s).len() <= s.len(),
        after_osc(s).len() <= s.len(),
    decreases s.len(),
{
    if s.len() > 0 {
        sequences_end(s.skip(1));
    }
}

/// Without the escape sequences.
pub open spec fn without_ansi(s: Seq<char>) -> Seq<char>
    decreases s.len(),
    via without_ansi_ends
{
    if s.len() == 0 {
        s
    } else if s[0] != ESC {
        seq![s[0]] + without_ansi(s.skip(1))
    } else if s.len() == 1 {
        Seq::empty()
    } else if s[1] == '[' {
        without_ansi(after_csi(s.skip(2)))
    } else if s[1] == ']' {
        without_ansi(after_osc(s.skip(2)))
    } else {
        without_ansi(s.skip(2))
    }
}

#[via_fn]
proof fn without_ansi_ends(s: Seq<char>) {
    if s.len() > 1 {
        sequences_end(s.skip(2));
    }
}

/// The position behind a control sequence whose body begins at `from`.
pub fn skip_csi(v: &Vec<char>, from: usize) -> (r: usize)
    requires
        from <= v.len(),
    ensures
        from <= r <= v.len(),
        v@.skip(r as int) == after_csi(v@.skip(from as int)),
{
    let mut i: usize = from;
    while i < v.len()
        invariant
            from <= i <= v.len(),
            after_csi(v@.skip(i as int)) == after_csi(v@.skip(from as int)),
        decreases v.len() - i,
    {
        let c: char = v[i];
        assert(v@.skip(i as int).skip(1) =~= v@.skip(i + 1));
        i = i + 1;
        if '@' <= c && c <= '~' {
            return i;
        }
    }
    assert(v@.skip(i as int).len() == 0);
    i
}

/// The position behind a system command whose body begins at `from`.
pub fn skip_osc(v: &Vec<char>, from: usize) -> (r: usize)
    requires
        from <= v.len(),
    ensures
        from <= r <= v.len(),
        v@.skip(r as int) == after_osc(v@.skip(from as int)),
{
    let mut i: usize = from;
    while i < v.len()
        invariant
            from <= i <= v.len(),
            after_osc(v@.skip(i as int)) == after_osc(v@.skip(from as int)),
        decreases v.len() - i,
    {
        let c: char = v[i];
        assert(v@.skip(i as int).skip(1) =~= v@.skip(i + 1));
        if c == BEL {
            return i + 1;
        }
        if c == ESC && i + 1 < v.len() && v[i + 1] == '\\' {
            assert(v@.skip(i as int).skip(2) =~= v@.skip(i + 2));
            return i + 2;
        }
        i = i + 1;
    }
    assert(v@.skip(i as int).len() == 0);
    i
}

/// Takes the escape sequences out of what a process printed.
pub fn strip_ansi(s: &str) -> (r: String)
    ensures
        r@ == without_ansi(s@),
{
    let v: Vec<char> = text::chars_of(s);
    let mut out: String = String::new();
    let mut i: usize = 0;
    assert(s@.skip(0) =~= s@);
    while i < v.len()
        invariant
            i <= v.len(),
            v@ == s@,
            out@ + without_ansi(s@.skip(i as int)) =~= without_ansi(s@),
        decreases v.len() - i,
    {
        let ghost rest = s@.skip(i as int);
        if v[i] != ESC {
            assert(rest.skip(1) =~= s@.skip(i + 1));
            out.push(v[i]);
            i = i + 1;
        } else if i + 1 == v.len() {
            i = i + 1;
            assert(s@.skip(i as int) =~= Seq::<char>::empty());
        } else {
            assert(rest.skip(2) =~= s@.skip(i + 2));
            if v[i + 1] == '[' {
                i = skip_csi(&v, i + 2);
            } else if v[i + 1] == ']' {
                i = skip_osc(&v, i + 2);
            } else {
                i = i + 2;
            }
        }
    }
    assert(s@.skip(i as int) =~= Seq::<char>::empty());
    out
}

/// No escape is left, and a text without one is left alone.
pub proof fn ansi_is_gone(s: Seq<char>)
    ensures
        !without_ansi(s).contains(ESC),
        !s.contains(ESC) ==> without_ansi(s) == s,
    decreases s.len(),
{
    if s.len() > 0 && s[0] != ESC {
        let t = s.skip(1);
        ansi_is_gone(t);
        let r = without_ansi(s);
        assert(r =~= seq![s[0]] + without_ansi(t));
        if r.contains(ESC) {
            let i = choose|i: int| 0 <= i < r.len() && r[i] == ESC;
            assert(without_ansi(t)[i - 1] == ESC);
        }
        if !s.contains(ESC) {
            assert(!t.contains(ESC)) by {
                if t.contains(ESC) {
                    let i = choose|i: int| 0 <= i < t.len() && t[i] == ESC;
                    assert(s[i + 1] == ESC);
                }
            }
            assert(r =~= s);
        }
    } else if s.len() > 1 {
        assert(s[0] == ESC);
        sequences_end(s.skip(2));
        ansi_is_gone(after_csi(s.skip(2)));
        ansi_is_gone(after_osc(s.skip(2)));
        ansi_is_gone(s.skip(2));
    } else if s.len() == 1 {
        assert(s[0] == ESC);
    }
}

// ---------- a stream cut in the middle ----------

/// A stream of at most `max` characters: what is longer keeps its beginning and its
/// end, with a note between them.
pub open spec fn clipped(s: Seq<char>, max: nat, loc: Locale) -> Seq<char> {
    let head = max / 2;
    if s.len() <= max {
        s
    } else {
        s.take(head as int) + "\n"@ + loc.text1(
            "tool.code.cmd.truncated"@,
            "n"@,
            text::decimal((s.len() - max) as nat),
        ) + "\n"@ + s.skip(s.len() - (max - head))
    }
}

/// Cuts a stream in the middle.
pub fn clip(s: &str, max: usize, loc: &Locale) -> (r: String)
    ensures
        r@ == clipped(s@, max as nat, *loc),
{
    let v: Vec<char> = text::chars_of(s);
    let total: usize = v.len();
    if total <= max {
        return text::owned(s);
    }
    let head_len: usize = max / 2;
    let tail_len: usize = max - head_len;
    let head: String = text::slice(&v, 0, head_len);
    let tail: String = text::slice(&v, total - tail_len, total);
    let n: String = text::dec_usize(total - max);
    let note: String = loc.tf1("tool.code.cmd.truncated", "n", n.as_str());
    assert(v@.subrange(0, head_len as int) =~= s@.take(head_len as int));
    assert(v@.subrange(total - tail_len, total as int) =~= s@.skip(total - tail_len));
    text::cat5(head.as_str(), "\n", note.as_str(), "\n", tail.as_str())
}

/// A cut stream still begins and ends as the whole one did: half of the room each.
pub proof fn clipping_keeps_both_ends(s: Seq<char>, max: nat, loc: Locale)
    requires
        s.len() > max,
    ensures
        text::stands_at(clipped(s, max, loc), s.take((max / 2) as int), 0),
        ({
            let tail = s.skip(s.len() - (max - max / 2));
            text::stands_at(clipped(s, max, loc), tail, clipped(s, max, loc).len() - tail.len())
        }),
{
    let r = clipped(s, max, loc);
    let head = s.take((max / 2) as int);
    let tail = s.skip(s.len() - (max - max / 2));
    assert(r.subrange(0, head.len() as int) =~= head);
    assert(r.subrange(r.len() - tail.len(), r.len() as int) =~= tail);
}

// ---------- running ----------

/// The line in `slot`: an error where there is no project, or no line.
pub fn command_line(ws: &Option<Workspace>, slot: CommandSlot, loc: &Locale) -> (r: Result<
    String,
    String,
>)
    ensures
        match r {
            Ok(line) => ws is Some && ws->0.line(slot) is Some && ws->0.line(slot)->0@ == line@,
            Err(e) => {
                ||| ws is None && e@ == loc.text("tool.code.err.no_root"@)
                ||| ws is Some && ws->0.line(slot) is None && e@ == not_set_text(slot, *loc)
            },
        },
{
    match ws {
        None => Err(text::owned(loc.t("tool.code.err.no_root"))),
        Some(w) => match w.command(slot) {
            Some(line) => Ok(line.clone()),
            None => Err(not_set(slot, loc)),
        },
    }
}

/// Who fills an empty slot.
pub open spec fn not_set_text(slot: CommandSlot, loc: Locale) -> Seq<char> {
    loc.text2(
        "tool.code.cmd.not_set"@,
        "slot"@,
        slot.key_spec(),
        "cmd"@,
        "/project "@ + slot.key_spec() + "-cmd"@,
    )
}

fn not_set(slot: CommandSlot, loc: &Locale) -> (r: String)
    ensures
        r@ == not_set_text(slot, *loc),
{
    let cmd: String = slot.setter_command();
    loc.tf2("tool.code.cmd.not_set", "slot", slot.key(), "cmd", cmd.as_str())
}

/// The program and its arguments, by the words of the line. `shell` is the first
/// character in the line that only a shell would understand: such a line is not run.
pub fn command_words(
    line: &str,
    slot: CommandSlot,
    shell: Option<char>,
    words: &Vec<String>,
    loc: &Locale,
) -> (r: Result<(String, Vec<String>), String>)
    ensures
        match r {
            Ok(c) => shell is None && words@.len() > 0 && c.0@ == words@[0]@ && text::views(c.1@)
                == text::views(words@).skip(1),
            Err(e) => {
                ||| shell matches Some(ch) && e@ == loc.text2(
                    "tool.code.cmd.shell"@,
                    "char"@,
                    seq![ch],
                    "line"@,
                    line@,
                )
                ||| shell is None && words@.len() == 0 && e@ == not_set_text(slot, *loc)
            },
        },
{
    match shell {
        Some(ch) => {
            let mut shown: String = String::new();
            shown.push(ch);
            assert(shown@ =~= seq![ch]);
            return Err(
                loc.tf2("tool.code.cmd.shell", "char", shown.as_str(), "line", line),
            );
        },
        None => {},
    }
    if words.len() == 0 {
        return Err(not_set(slot, loc));
    }
    let mut args: Vec<String> = Vec::new();
    let mut i: usize = 1;
    while i < words.len()
        invariant
            1 <= i <= words.len(),
            text::views(args@) =~= text::views(words@).subrange(1, i as int),
        decreases words.len() - i,
    {
        args.push(words[i].clone());
        i = i + 1;
    }
    assert(text::views(words@).subrange(1, i as int) =~= text::views(words@).skip(1));
    Ok((words[0].clone(), args))
}

/// What a caller is told while another command runs.
pub fn busy(loc: &Locale) -> (r: String)
    ensures
        r@ == loc.text("tool.code.cmd.busy"@),
{
    text::owned(loc.t("tool.code.cmd.busy"))
}

/// How a run ended.
#[derive(Debug, Clone, Copy, PartialEq, Eq, Structural)]
pub enum Ended {
    Exited { success: bool, code: Option<i32> },
    TimedOut,
    Cancelled,
}

/// The seconds a command may take: at least one.
pub fn command_timeout(configured: u64) -> (r: u64)
    ensures
        r == if configured < 1 {
            1
        } else {
            configured
        },
{
    if configured < 1 {
        1
    } else {
        configured
    }
}

/// How a run ended, in words. `secs` is what it took.
pub open spec fn ended_text(ended: Ended, secs: Seq<char>, timeout: u64, loc: Locale) -> Seq<char> {
    match ended {
        Ended::Exited { .. } => loc.text1("tool.code.cmd.finished"@, "secs"@, secs),
        Ended::TimedOut => loc.text1(
            "tool.code.cmd.timed_out"@,
            "secs"@,
            text::decimal(timeout as nat),
        ),
        Ended::Cancelled => loc.text("tool.code.cmd.cancelled"@),
    }
}

/// How many characters of a stream are shown: at least two hundred.
pub open spec fn stream_limit(configured: usize) -> nat {
    if configured < 200 {
        200
    } else {
        configured as nat
    }
}

/// What a run answers: the line and how it ended, then both streams. A command that
/// was stopped has no exit code, so none is shown.
pub open spec fn run_text(
    line: Seq<char>,
    ended: Ended,
    secs: Seq<char>,
    timeout: u64,
    limit: usize,
    stdout: Seq<char>,
    stderr: Seq<char>,
    loc: Locale,
) -> Seq<char> {
    let (success, code) = match ended {
        Ended::Exited { success, code } => (success, code),
        _ => (true, None),
    };
    console::console_text(
        Some(line + "\n"@ + ended_text(ended, secs, timeout, loc)),
        clipped(without_ansi(stdout), stream_limit(limit), loc),
        clipped(without_ansi(stderr), stream_limit(limit), loc),
        success,
        code,
        loc,
    )
}

/// The answer of a command tool once the run is over, by the bytes that it printed.
pub fn finished_outcome(
    line: &str,
    ended: Ended,
    secs: &str,
    timeout: u64,
    limit: usize,
    stdout: &[u8],
    stderr: &[u8],
    loc: &Locale,
) -> (r: ToolOutcome)
    ensures
        r.says(
            run_text(
                line@,
                ended,
                secs@,
                timeout,
                limit,
                file::utf8_lossy(stdout@),
                file::utf8_lossy(stderr@),
                *loc,
            ),
        ),
{
    let out: String = file::from_utf8_lossy(stdout);
    let err: String = file::from_utf8_lossy(stderr);
    run_outcome(line, ended, secs, timeout, limit, out.as_str(), err.as_str(), loc)
}

/// The answer of a command tool once the run is over, by the text that it printed.
pub fn run_outcome(
    line: &str,
    ended: Ended,
    secs: &str,
    timeout: u64,
    limit: usize,
    stdout: &str,
    stderr: &str,
    loc: &Locale,
) -> (r: ToolOutcome)
    ensures
        r.says(run_text(line@, ended, secs@, timeout, limit, stdout@, stderr@, *loc)),
{
    let status: String = match ended {
        Ended::Exited { .. } => loc.tf1("tool.code.cmd.finished", "secs", secs),
        Ended::TimedOut => {
            let n: String = text::dec(timeout);
            loc.tf1("tool.code.cmd.timed_out", "secs", n.as_str())
        },
        Ended::Cancelled => text::owned(loc.t("tool.code.cmd.cancelled")),
    };
    let header: String = text::cat3(line, "\n", status.as_str());
    let room: usize = if limit < 200 {
        200
    } else {
        limit
    };
    let (success, code): (bool, Option<i32>) = match ended {
        Ended::Exited { success, code } => (success, code),
        _ => (true, None),
    };
    let out: String = clip(strip_ansi(stdout).as_str(), room, loc);
    let err: String = clip(strip_ansi(stderr).as_str(), room, loc);
    ToolOutcome::text(
        console::format_console(
            Some(header.as_str()),
            out.as_str(),
            err.as_str(),
            success,
            code,
            loc,
        ),
    )
}

} // verus!
