//! `code_edit` and `code_write`: changing a file of the attached project.

use vstd::prelude::*;
use crate::code::file;
use crate::code::file::TextFile;
use crate::code::look;
use crate::i18n::Locale;
use crate::json::Json;
use crate::outcome::ToolOutcome;
use crate::text;
use crate::text_laws;

verus! {

/// Why a file is not changed: its former content could not be kept. `err` is what
/// went wrong; without it there is no place to keep it at all.
pub fn journal_error(err: Option<&str>, loc: &Locale) -> (r: String)
    ensures
        r@ == match err {
            None => loc.text("tool.code.err.no_journal"@),
            Some(e) => loc.text1("tool.code.err.journal_failed"@, "err"@, e@),
        },
{
    match err {
        None => text::owned(loc.t("tool.code.err.no_journal")),
        Some(e) => loc.tf1("tool.code.err.journal_failed", "err", e),
    }
}

// ---------- code_edit ----------

/// What is to be exchanged.
#[derive(Debug)]
pub struct EditArgs {
    pub old: String,
    pub new: String,
    pub replace_all: bool,
}

/// Reads the arguments of an edit: what is exchanged must not be empty.
pub fn edit_args(args: &Json, loc: &Locale) -> (r: Result<EditArgs, String>)
    ensures
        ({
            let old_text = args@.str_at("old_string"@);
            let new_text = args@.str_at("new_string"@);
            match r {
                Ok(a) => {
                    &&& old_text == Some(a.old@) && a.old@.len() > 0
                    &&& new_text == Some(a.new@)
                    &&& a.replace_all == (args@.bool_at("replace_all"@) == Some(true))
                },
                Err(e) => (old_text is None || new_text is None || old_text->0.len() == 0) && e@
                    == loc.text("tool.code.err.edit_args"@),
            }
        }),
{
    let old: String = match args.get_str("old_string") {
        Some(s) => s,
        None => {
            return Err(text::owned(loc.t("tool.code.err.edit_args")));
        },
    };
    let new: String = match args.get_str("new_string") {
        Some(s) => s,
        None => {
            return Err(text::owned(loc.t("tool.code.err.edit_args")));
        },
    };
    if old.as_str().is_empty() {
        return Err(text::owned(loc.t("tool.code.err.edit_args")));
    }
    let replace_all: bool = match args.get_bool("replace_all") {
        Some(b) => b,
        None => false,
    };
    Ok(EditArgs { old, new, replace_all })
}

/// What an edit comes to.
#[derive(Debug)]
pub enum Edit {
    /// Nothing is written.
    Refused(ToolOutcome),
    /// These bytes are written, and then this is answered.
    Apply { bytes: Vec<u8>, outcome: ToolOutcome },
}

/// How often the text to be exchanged stands in the file.
pub open spec fn edit_count(body: Seq<char>, a: EditArgs) -> nat {
    text::occurrences(body, file::with_lf(a.old@))
}

/// The file's text after the edit.
pub open spec fn edited(body: Seq<char>, a: EditArgs) -> Seq<char> {
    if a.replace_all {
        text::replaced(body, file::with_lf(a.old@), file::with_lf(a.new@))
    } else {
        text::replaced_first(body, file::with_lf(a.old@), file::with_lf(a.new@))
    }
}

/// The index of the line in which `part` first stands.
pub open spec fn line_of(body: Seq<char>, part: Seq<char>) -> int {
    let i = text::find_from(body, part, 0);
    if i < 0 {
        0
    } else {
        text::split(body.take(i), '\n').len() - 1
    }
}

/// The changed place with three lines round it.
pub open spec fn neighbourhood(body: Seq<char>, part: Seq<char>) -> Seq<char> {
    let lines = text::lines_of(body);
    let at = line_of(body, part);
    let from = if at < 3 {
        0
    } else {
        at - 3
    };
    let to = look::lesser(at + text::lines_of(part).len() + 3, lines.len() as int);
    look::numbered_rows(lines, from, to)
}

/// What an applied edit answers.
pub open spec fn edit_text(body: Seq<char>, a: EditArgs, shown: Seq<char>, loc: Locale) -> Seq<
    char,
> {
    let applied = if a.replace_all {
        edit_count(body, a)
    } else {
        1
    };
    loc.text2("tool.code.edit.ok"@, "path"@, shown, "n"@, text::decimal(applied)) + "\n"@
        + neighbourhood(edited(body, a), file::with_lf(a.new@))
}

proof fn normal_form_is_not_empty(s: Seq<char>)
    requires
        s.len() > 0,
    ensures
        file::with_lf(s).len() > 0,
{
}

proof fn line_is_within(body: Seq<char>, part: Seq<char>)
    ensures
        0 <= line_of(body, part) <= text::lines_of(body).len(),
{
    let i = text::find_from(body, part, 0);
    text::find_is_first(body, part, 0);
    text::split_is_not_empty(body, '\n');
    if i >= 0 {
        text::split_of_beginning(body, i, '\n');
        text::split_is_not_empty(body.take(i), '\n');
    }
    let parts = text::split(body, '\n');
    assert(text::lines_of(body).len() >= parts.len() - 1);
}

fn echo(body: &str, part: &str) -> (r: String)
    ensures
        r@ == neighbourhood(body@, part@),
{
    let v: Vec<char> = text::chars_of(body);
    let p: Vec<char> = text::chars_of(part);
    proof {
        line_is_within(body@, part@);
        text::find_is_first(body@, part@, 0);
    }
    let at: usize = match text::find(&v, &p, 0) {
        Some(i) => {
            let before: String = text::slice(&v, 0, i);
            assert(before@ =~= body@.take(i as int));
            let parts: Vec<String> = text::split_on(before.as_str(), '\n');
            assert(text::views(parts@).len() == parts@.len());
            parts.len() - 1
        },
        None => 0,
    };
    let lines: Vec<String> = text::lines(body);
    let shown: Vec<String> = text::lines(part);
    proof {
        assert(text::views(lines@).len() == lines@.len());
        assert(text::views(shown@).len() == shown@.len());
    }
    let from: usize = if at < 3 {
        0
    } else {
        at - 3
    };
    let left: u128 = (lines.len() - at) as u128;
    let to: usize = if shown.len() as u128 + 3 >= left {
        lines.len()
    } else {
        at + (shown.len() + 3)
    };
    look::numbered(&lines, from, to)
}

/// `code_edit`: exchanges a text that stands in the file exactly once, or everywhere
/// where that is asked for. Line ends are compared in their plain form and written
/// back in the file's own. A text that does not occur, or occurs more often, is
/// refused with nothing written.
pub fn edit(f: &TextFile, a: &EditArgs, shown: &str, loc: &Locale) -> (r: Edit)
    requires
        a.old@.len() > 0,
    ensures
        ({
            let n = edit_count(f.text@, *a);
            match r {
                Edit::Refused(o) => {
                    ||| n == 0 && o.says(loc.text1("tool.code.edit.not_found"@, "path"@, shown@))
                    ||| n > 1 && !a.replace_all && o.says(
                        loc.text2(
                            "tool.code.edit.ambiguous"@,
                            "n"@,
                            text::decimal(n),
                            "path"@,
                            shown@,
                        ),
                    )
                },
                Edit::Apply { bytes, outcome } => {
                    &&& n == 1 || (n > 1 && a.replace_all)
                    &&& bytes@ == file::file_bytes(f.crlf, f.bom, edited(f.text@, *a))
                    &&& outcome.says(edit_text(f.text@, *a, shown@, *loc))
                },
            }
        }),
{
    let old: String = file::normalized(a.old.as_str());
    let new: String = file::normalized(a.new.as_str());
    proof {
        normal_form_is_not_empty(a.old@);
    }
    let count: usize = text::count(f.text.as_str(), old.as_str());
    if count == 0 {
        return Edit::Refused(
            ToolOutcome::text(loc.tf1("tool.code.edit.not_found", "path", shown)),
        );
    }
    let n: String = text::dec_usize(count);
    if count > 1 && !a.replace_all {
        return Edit::Refused(
            ToolOutcome::text(
                loc.tf2("tool.code.edit.ambiguous", "n", n.as_str(), "path", shown),
            ),
        );
    }
    let updated: String = if a.replace_all {
        text::replace(f.text.as_str(), old.as_str(), new.as_str())
    } else {
        text::replace_first(f.text.as_str(), old.as_str(), new.as_str())
    };
    let applied: usize = if a.replace_all {
        count
    } else {
        1
    };
    let n_applied: String = text::dec_usize(applied);
    let mut out: String = loc.tf2(
        "tool.code.edit.ok",
        "path",
        shown,
        "n",
        n_applied.as_str(),
    );
    out.push_str("\n");
    let rows: String = echo(updated.as_str(), new.as_str());
    out.push_str(rows.as_str());
    Edit::Apply { bytes: f.encode(updated.as_str()), outcome: ToolOutcome::text(out) }
}

/// An edit of one place changes that place and nothing else: the text before it and
/// the text behind it stay as they were.
pub proof fn an_edit_changes_one_place(body: Seq<char>, a: EditArgs)
    requires
        edit_count(body, a) >= 1,
        !a.replace_all,
    ensures
        exists|i: int| #[trigger]
            text::stands_at(body, file::with_lf(a.old@), i) && edited(body, a) == body.take(i)
                + file::with_lf(a.new@) + body.skip(i + file::with_lf(a.old@).len()),
{
    let old_text = file::with_lf(a.old@);
    text::counted_occurs(body, old_text);
    text::find_is_first(body, old_text, 0);
    assert(text::stands_at(body, old_text, text::find_from(body, old_text, 0)));
}

/// An edit of every place exchanges each occurrence of the text in the file as it was,
/// once, and nothing else: cut at the occurrences from the left, the file's pieces stay
/// in their order, and where the old text stood between two of them the new one stands.
/// So it is also where the new text holds the old one.
pub proof fn an_edit_changes_every_place(
    pieces: Seq<Seq<char>>,
    a: EditArgs,
)
    requires
        a.old@.len() > 0,
        a.replace_all,
        text_laws::is_cut(pieces, file::with_lf(a.old@)),
    ensures
        edited(text_laws::woven(pieces, file::with_lf(a.old@)), a) == text_laws::woven(
            pieces,
            file::with_lf(a.new@),
        ),
        edit_count(text_laws::woven(pieces, file::with_lf(a.old@)), a) == pieces.len() - 1,
{
    normal_form_is_not_empty(a.old@);
    text_laws::every_occurrence_is_exchanged_once(
        pieces,
        file::with_lf(a.old@),
        file::with_lf(a.new@),
    );
}

/// With every edit, of one place or of all, the file grows by what each place that was
/// exchanged grew by.
pub proof fn an_edit_changes_the_length_place_by_place(body: Seq<char>, a: EditArgs)
    requires
        a.old@.len() > 0,
        edit_count(body, a) >= 1,
    ensures
        edited(body, a).len() - body.len() == (if a.replace_all {
            edit_count(body, a) as int
        } else {
            1int
        }) * (file::with_lf(a.new@).len() - file::with_lf(a.old@).len()),
{
    normal_form_is_not_empty(a.old@);
    let old_text = file::with_lf(a.old@);
    let new_text = file::with_lf(a.new@);
    if a.replace_all {
        let pieces = text_laws::every_text_can_be_cut(body, old_text);
        an_edit_changes_every_place(pieces, a);
        text_laws::woven_lengths(pieces, old_text, new_text);
    } else {
        an_edit_changes_one_place(body, a);
    }
}

/// Every file can be cut at the occurrences of a text, so that what is said of the pieces
/// is said of every edit: the pieces are the file's, and the bytes that are written hold
/// them with the new text between them.
pub proof fn every_edit_has_its_pieces(body: Seq<char>, a: EditArgs)
    requires
        a.old@.len() > 0,
        a.replace_all,
    ensures
        exists|pieces: Seq<Seq<char>>| #[trigger]
            text_laws::is_cut(pieces, file::with_lf(a.old@)) && body == text_laws::woven(
                pieces,
                file::with_lf(a.old@),
            ) && edited(body, a) == text_laws::woven(pieces, file::with_lf(a.new@)),
{
    normal_form_is_not_empty(a.old@);
    let pieces = text_laws::every_text_can_be_cut(body, file::with_lf(a.old@));
    an_edit_changes_every_place(pieces, a);
}

// ---------- code_write ----------

/// The content argument of a write.
pub fn write_args(args: &Json, loc: &Locale) -> (r: Result<String, String>)
    ensures
        match r {
            Ok(c) => args@.str_at("content"@) == Some(c@),
            Err(e) => args@.str_at("content"@) is None && e@ == loc.text(
                "tool.code.err.write_args"@,
            ),
        },
{
    match args.get_str("content") {
        Some(c) => Ok(c),
        None => Err(text::owned(loc.t("tool.code.err.write_args"))),
    }
}

/// The bytes of a file that is written whole. One that is there and is text keeps
/// its line ends and its mark.
pub open spec fn is_written(
    bytes: Seq<u8>,
    existing: Option<Seq<u8>>,
    content: Seq<char>,
) -> bool {
    if existing is Some && !existing->0.contains(0) {
        exists|f: TextFile| #[trigger]
            f.is_load_of(existing->0) && bytes == file::file_bytes(
                f.crlf,
                f.bom,
                file::with_lf(content),
            )
    } else {
        bytes == vstd::utf8::encode_utf8(file::with_lf(content))
    }
}

/// `code_write`: the bytes to write for the content, and the answer.
pub fn write(existing: &Option<Vec<u8>>, content: &str, shown: &str, loc: &Locale) -> (r: (
    Vec<u8>,
    ToolOutcome,
))
    ensures
        is_written(
            r.0@,
            match *existing {
                Some(b) => Some(b@),
                None => None,
            },
            content@,
        ),
        r.1.says(
            loc.text2(
                if existing is Some {
                    "tool.code.write.replaced"@
                } else {
                    "tool.code.write.created"@
                },
                "path"@,
                shown@,
                "n"@,
                text::decimal(text::lines_of(content@).len()),
            ),
        ),
{
    let body: String = file::normalized(content);
    let old: Option<TextFile> = match existing {
        Some(b) => TextFile::load(b.as_slice()),
        None => None,
    };
    let bytes: Vec<u8> = match old {
        Some(f) => f.encode(body.as_str()),
        None => {
            let mut plain: Vec<u8> = Vec::new();
            plain.extend_from_slice(body.as_str().as_bytes());
            assert(plain@ =~= vstd::utf8::encode_utf8(body@));
            plain
        },
    };
    let key: &str = if existing.is_some() {
        "tool.code.write.replaced"
    } else {
        "tool.code.write.created"
    };
    let lines: Vec<String> = text::lines(content);
    assert(text::views(lines@).len() == lines@.len());
    let n: String = text::dec_usize(lines.len());
    (bytes, ToolOutcome::text(loc.tf2(key, "path", shown, "n", n.as_str())))
}

} // verus!
