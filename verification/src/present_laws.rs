//! What is shown of a call, of a number and of a file's windows, said of what goes in.

use vstd::prelude::*;
use crate::calc::Figure;
use crate::code_search_probe;
use crate::code_search_probe::Chunk;
use crate::console;
use crate::datetime;
use crate::i18n::Locale;
use crate::json;
use crate::json::JsonView;
use crate::llm;
use crate::llm::LlmChange;
use crate::notes::overview::Score;
use crate::present;
use crate::present::{AddedLanguage, ArgDetail, BlockView, ToolPresentation};
use crate::text;
use crate::text_laws;
use crate::times::Moment;

verus! {

// ---------- the fields of a call ----------

/// A row of the table brings in the field that it names, behind the fields of the rows
/// before it, where the row is of this tool and the call has such a field.
pub proof fn one_row_more(name: Seq<char>, pairs: Seq<(Seq<char>, Seq<char>)>, n: int, k: int)
    requires
        0 <= n < 55,
        json::keys_differ(pairs),
    ensures
        present::placed_fields(name, pairs, 0) == Seq::<(Seq<char>, Seq<char>)>::empty(),
        0 <= k < pairs.len() && present::FIELD_ORDER@[n].0@ == name && pairs[k].0
            == present::FIELD_ORDER@[n].1@ ==> present::placed_fields(name, pairs, n + 1)
            == present::placed_fields(name, pairs, n).push(pairs[k]),
        present::FIELD_ORDER@[n].0@ != name || (forall|j: int|
            0 <= j < pairs.len() ==> (#[trigger] pairs[j]).0 != present::FIELD_ORDER@[n].1@)
            ==> present::placed_fields(name, pairs, n + 1) == present::placed_fields(
            name,
            pairs,
            n,
        ),
{
    let key = present::FIELD_ORDER@[n].1@;
    first_with_key(pairs, key, 0);
    let at = json::key_from(pairs, key, 0);
    if 0 <= k < pairs.len() && pairs[k].0 == key {
        if at < k {
            assert(pairs[at].0 != pairs[k].0);
        } else if k < at {
            assert(pairs[k].0 != pairs[at].0);
        }
    }
}

proof fn first_with_key(pairs: Seq<(Seq<char>, Seq<char>)>, key: Seq<char>, from: int)
    requires
        0 <= from <= pairs.len(),
    ensures
        ({
            let k = json::key_from(pairs, key, from);
            &&& k == -1 || from <= k < pairs.len() && pairs[k].0 == key
            &&& k == -1 ==> forall|j: int| from <= j < pairs.len() ==> (#[trigger] pairs[j]).0
                != key
        }),
    decreases pairs.len() - from,
{
    if from < pairs.len() && pairs[from].0 != key {
        first_with_key(pairs, key, from + 1);
    }
}

/// The fields that the table names for the tool come first; the others come behind them
/// in the order of the call.
pub proof fn one_field_more(
    name: Seq<char>,
    pairs: Seq<(Seq<char>, Seq<char>)>,
    f: (Seq<char>, Seq<char>),
)
    ensures
        present::fields_in_order(name, pairs) == present::placed_fields(name, pairs, 55)
            + present::other_fields(name, pairs),
        present::other_fields(name, Seq::empty()) == Seq::<(Seq<char>, Seq<char>)>::empty(),
        (exists|i: int|
            0 <= i < 55 && (#[trigger] present::FIELD_ORDER@[i]).0@ == name
                && present::FIELD_ORDER@[i].1@ == f.0) ==> present::other_fields(
            name,
            pairs.push(f),
        ) == present::other_fields(name, pairs),
        (forall|i: int|
            0 <= i < 55 ==> (#[trigger] present::FIELD_ORDER@[i]).0@ != name
                || present::FIELD_ORDER@[i].1@ != f.0) ==> present::other_fields(
            name,
            pairs.push(f),
        ) == present::other_fields(name, pairs).push(f),
{
    assert(pairs.push(f).drop_last() =~= pairs);
}

// ---------- values ----------

/// A string stands for itself, a number for its digits, a truth value for its word;
/// nothing else is short.
pub proof fn short_values(s: Seq<char>, t: Seq<char>, n: Option<u64>, written: Seq<char>)
    ensures
        present::scalar_of(Some(JsonView::Str(s))) == Some(s),
        present::scalar_of(Some(JsonView::Num(t, n))) == Some(t),
        present::scalar_of(Some(JsonView::Bool(true))) == Some("true"@),
        present::scalar_of(Some(JsonView::Bool(false))) == Some("false"@),
        present::scalar_of(Some(JsonView::Null)) is None,
        present::scalar_of(None) is None,
        json::json_of(written) == Some(JsonView::Num(t, n)) ==> present::field_scalar(written)
            == Some(written),
        json::json_of(written) == Some(JsonView::Str(s)) ==> present::field_scalar(written) == Some(
            s,
        ),
        json::json_of(written) == Some(JsonView::Bool(true)) ==> present::field_scalar(written)
            == Some("true"@),
        json::json_of(written) == Some(JsonView::Bool(false)) ==> present::field_scalar(written)
            == Some("false"@),
        json::json_of(written) == Some(JsonView::Null) || json::json_of(written) is None
            ==> present::field_scalar(written) is None,
{
}

/// What has more than a hundred characters or more than one line is large.
pub proof fn large_values(s: Seq<char>)
    ensures
        present::big(s) <==> s.len() > 100 || exists|i: int|
            0 <= i < s.len() && #[trigger] s[i] == '\n',
{
    if s.contains('\n') {
        let i = choose|i: int| 0 <= i < s.len() && s[i] == '\n';
        assert(s[i] == '\n');
    }
    if exists|i: int| 0 <= i < s.len() && #[trigger] s[i] == '\n' {
        let i = choose|i: int| 0 <= i < s.len() && #[trigger] s[i] == '\n';
        assert(s.contains(s[i]));
    }
}

/// A header is the text on one line, or its first hundred characters and an ellipsis.
pub proof fn a_header_is_one_line(s: Seq<char>)
    ensures
        ({
            let flat = text::joined(text::words_of(s), " "@);
            &&& flat.len() <= 100 ==> present::header_line(s) == flat
            &&& flat.len() > 100 ==> present::header_line(s) == flat.subrange(0, 100) + "…"@
        }),
{
    let flat = text::joined(text::words_of(s), " "@);
    if flat.len() > 100 {
        assert(flat.take(100) =~= flat.subrange(0, 100));
    }
}

/// No pair makes no header, a single one stands by its value, and several stand with
/// their names.
pub proof fn a_header_names_its_pairs(
    p: (Seq<char>, Seq<char>),
    q: (Seq<char>, Seq<char>),
    pairs: Seq<(Seq<char>, Seq<char>)>,
)
    ensures
        present::header_of(Seq::empty()) is None,
        present::header_of(seq![p]) == Some(present::header_line(p.1)),
        pairs.len() >= 2 ==> present::header_of(pairs) == Some(
            present::header_line(text::joined(present::assignments(pairs), ", "@)),
        ),
        present::assignments(Seq::empty()) == Seq::<Seq<char>>::empty(),
        present::assignments(pairs.push(q)) == present::assignments(pairs).push(
            q.0 + "="@ + q.1,
        ),
{
    assert(present::assignments(pairs.push(q)) =~= present::assignments(pairs).push(
        q.0 + "="@ + q.1,
    ));
}

/// The values that go into the header are the short ones that are more than white space,
/// without the one that is shown below.
pub proof fn one_value_more(
    fields: Seq<(Seq<char>, Seq<char>)>,
    f: (Seq<char>, Seq<char>),
    below: Option<Seq<char>>,
    s: Seq<char>,
)
    ensures
        present::scalars(Seq::empty(), below) == Seq::<(Seq<char>, Seq<char>)>::empty(),
        below == Some(f.0) ==> present::scalars(fields.push(f), below) == present::scalars(
            fields,
            below,
        ),
        below != Some(f.0) && present::field_scalar(f.1) == Some(s) && text::trimmed(s).len() > 0
            ==> present::scalars(fields.push(f), below) == present::scalars(fields, below).push(
            (f.0, s),
        ),
        present::field_scalar(f.1) is None ==> present::scalars(fields.push(f), below)
            == present::scalars(fields, below),
        present::field_scalar(f.1) == Some(s) && text::trimmed(s).len() == 0 ==> present::scalars(
            fields.push(f),
            below,
        ) == present::scalars(fields, below),
{
    text_laws::only_blank_texts_vanish(s);
    assert(fields.push(f).drop_last() =~= fields);
}

// ---------- code ----------

proof fn last_of(a: Seq<char>, c: char, b: Seq<char>)
    requires
        !b.contains(c),
    ensures
        text::last_index(a.push(c) + b, c) == a.len(),
        (a.push(c) + b).skip(a.len() as int + 1) == b,
    decreases b.len(),
{
    let s = a.push(c) + b;
    assert(s.skip(a.len() as int + 1) =~= b);
    if b.len() == 0 {
        assert(s =~= a.push(c));
    } else {
        let t = b.drop_last();
        assert(s.drop_last() =~= a.push(c) + t);
        assert(s.last() == b[b.len() - 1]);
        assert forall|i: int| 0 <= i < t.len() implies t[i] != c by {
            assert(t[i] == b[i]);
            assert(b.contains(b[i]));
        }
        assert(b.contains(b[b.len() - 1]));
        last_of(a, c, t);
    }
}

proof fn nothing_of(s: Seq<char>, c: char)
    requires
        !s.contains(c),
    ensures
        text::last_index(s, c) == -1,
{
    text::last_index_is_there(s, c);
}

/// What follows the last separator is what has none of them.
pub proof fn what_is_behind_the_last(a: Seq<char>, c: char, b: Seq<char>)
    requires
        !b.contains(c),
    ensures
        present::behind_last(a.push(c) + b, c) == b,
        present::behind_last(b, c) == b,
{
    last_of(a, c, b);
    nothing_of(b, c);
}

/// The language of a file is its extension in small letters: what follows the last dot
/// of the name, which is what follows the last separator of the path. A name without a
/// dot has none, whatever the folders are called.
pub proof fn the_extension_is_the_language(
    folder: Seq<char>,
    sep: char,
    stem: Seq<char>,
    ext: Seq<char>,
)
    requires
        sep == '/' || sep == '\\',
        !stem.contains('/') && !stem.contains('\\'),
        !ext.contains('/') && !ext.contains('\\') && !ext.contains('.'),
    ensures
        present::lang_of(Some(folder.push(sep) + (stem.push('.') + ext))) == text::ascii_lowered(
            ext,
        ),
        present::lang_of(Some(stem.push('.') + ext)) == text::ascii_lowered(ext),
        present::lang_of(Some(folder.push(sep) + ext)) == Seq::<char>::empty(),
        present::lang_of(Some(ext)) == Seq::<char>::empty(),
        present::lang_of(None) == Seq::<char>::empty(),
{
    let name = stem.push('.') + ext;
    assert forall|i: int| 0 <= i < name.len() implies name[i] != '/' && name[i] != '\\' by {
        if i < stem.len() {
            assert(name[i] == stem[i]);
            assert(stem.contains(stem[i]));
        } else if i > stem.len() {
            assert(name[i] == ext[i - stem.len() - 1]);
            assert(ext.contains(ext[i - stem.len() - 1]));
        }
    }
    last_of(stem, '.', ext);
    nothing_of(ext, '.');
    the_name_is_behind(folder, sep, name);
    the_name_is_behind(folder, sep, ext);
}

proof fn the_name_is_behind(folder: Seq<char>, sep: char, name: Seq<char>)
    requires
        sep == '/' || sep == '\\',
        !name.contains('/') && !name.contains('\\'),
    ensures
        present::file_name_of(folder.push(sep) + name) == name,
        present::file_name_of(name) == name,
{
    nothing_of(name, '/');
    nothing_of(name, '\\');
    let whole = folder.push(sep) + name;
    last_of(folder, sep, name);
    if sep == '\\' {
        text::last_index_is_there(whole, '/');
        if text::last_index(whole, '/') >= 0 {
            let k = text::last_index(whole, '/');
            last_is_at(whole, '/');
            assert(k < folder.len()) by {
                if k > folder.len() {
                    assert(whole[k] == name[k - folder.len() - 1]);
                    assert(name.contains(whole[k]));
                }
            }
            let inner = folder.skip(k + 1);
            assert(whole.skip(k + 1) =~= inner.push(sep) + name);
            last_of(inner, sep, name);
        }
    }
}

proof fn last_is_at(s: Seq<char>, c: char)
    requires
        text::last_index(s, c) >= 0,
    ensures
        text::last_index(s, c) < s.len(),
        s[text::last_index(s, c)] == c,
    decreases s.len(),
{
    if s.len() > 0 && s.last() != c {
        last_is_at(s.drop_last(), c);
    }
}

/// Two tools have a field that is source text: `python_exec` its code, `fs_write` its
/// content in the language of the file.
pub proof fn source_text_is_shown_as_code(name: Seq<char>, args: JsonView, code: Seq<char>)
    ensures
        name == "python_exec"@ && args.str_at("code"@) == Some(code) && text::trimmed(code).len()
            > 0 ==> present::code_shown(name, args) == Some(
            (BlockView::Code("python"@, code), "code"@),
        ),
        name == "fs_write"@ && args.str_at("content"@) == Some(code) && text::trimmed(code).len()
            > 0 ==> present::code_shown(name, args) == Some(
            (BlockView::Code(present::lang_of(args.str_at("path"@)), code), "content"@),
        ),
        name != "python_exec"@ && name != "fs_write"@ ==> present::code_shown(name, args) is None,
        name == "python_exec"@ && args.str_at("code"@) is None ==> present::code_shown(name, args)
            is None,
        name == "fs_write"@ && args.str_at("content"@) is None ==> present::code_shown(name, args)
            is None,
{
    text_laws::only_blank_texts_vanish(code);
    reveal_strlit("python_exec");
    reveal_strlit("fs_write");
    assert("python_exec"@.len() != "fs_write"@.len());
}

/// Below the header is the tool's source text or, without one, its first large string.
pub proof fn the_first_large_value_is_below(
    name: Seq<char>,
    args: JsonView,
    fields: Seq<(Seq<char>, Seq<char>)>,
    k: int,
    s: Seq<char>,
)
    ensures
        present::code_shown(name, args) is Some ==> present::shown_below(name, args, fields)
            == present::code_shown(name, args),
        present::code_shown(name, args) is None && 0 <= k < fields.len() && json::json_of(
            fields[k].1,
        ) == Some(JsonView::Str(s)) && present::big(s) && (forall|j: int, t: Seq<char>|
            0 <= j < k && json::json_of((#[trigger] fields[j]).1) == Some(JsonView::Str(t))
                ==> !#[trigger] present::big(t)) ==> present::shown_below(name, args, fields)
            == Some((BlockView::Plain(s), fields[k].0)),
        present::code_shown(name, args) is None && (forall|j: int, t: Seq<char>|
            0 <= j < fields.len() && json::json_of((#[trigger] fields[j]).1) == Some(
                JsonView::Str(t),
            ) ==> !#[trigger] present::big(t)) ==> present::shown_below(name, args, fields) is None,
{
    large_is_found(fields, 0);
    let i = present::big_field(fields, 0);
    if i >= 0 {
        let t = large_at(fields, i);
        assert(present::big(t) && json::json_of(fields[i].1) == Some(JsonView::Str(t)));
        if 0 <= k < i && json::json_of(fields[k].1) == Some(JsonView::Str(s)) {
            assert(!present::big(s));
        }
    }
}

spec fn large_at(fields: Seq<(Seq<char>, Seq<char>)>, i: int) -> Seq<char> {
    match json::json_of(fields[i].1) {
        Some(JsonView::Str(s)) => s,
        _ => Seq::empty(),
    }
}

proof fn large_is_found(fields: Seq<(Seq<char>, Seq<char>)>, from: int)
    requires
        0 <= from <= fields.len(),
    ensures
        ({
            let i = present::big_field(fields, from);
            let end = if i < 0 {
                fields.len() as int
            } else {
                i
            };
            &&& i == -1 || from <= i < fields.len()
            &&& i >= 0 ==> json::json_of(fields[i].1) == Some(
                JsonView::Str(large_at(fields, i)),
            ) && present::big(large_at(fields, i))
            &&& forall|j: int, t: Seq<char>|
                from <= j < end && json::json_of((#[trigger] fields[j]).1) == Some(JsonView::Str(t))
                    ==> !#[trigger] present::big(t)
        }),
    decreases fields.len() - from,
{
    if from < fields.len() {
        let found = json::json_of(fields[from].1) is Some && (json::json_of(fields[from].1)->0)
            is Str && present::big(large_at(fields, from));
        if !found {
            large_is_found(fields, from + 1);
        }
    }
}

/// In full, each field has its blocks behind those of the fields before it.
pub proof fn one_field_more_in_full(
    fields: Seq<(Seq<char>, Seq<char>)>,
    f: (Seq<char>, Seq<char>),
    code: Option<(Seq<char>, Seq<char>)>,
)
    ensures
        present::all_field_blocks(Seq::empty(), code) == Seq::<BlockView>::empty(),
        present::all_field_blocks(fields.push(f), code) == present::all_field_blocks(fields, code)
            + present::field_blocks(f, code),
{
    assert(fields.push(f).drop_last() =~= fields);
}

/// In full, source text and large strings stand under their key, and any other value
/// behind it: a short one by itself, a composed or blank one as it is written.
pub proof fn a_field_in_full(
    key: Seq<char>,
    written: Seq<char>,
    s: Seq<char>,
    code: Option<(Seq<char>, Seq<char>)>,
    lang: Seq<char>,
)
    ensures
        ({
            let v = json::json_of(written);
            let blocks = present::field_blocks((key, written), code);
            let is_code = code == Some((key, lang));
            let other = code is None || (code->0).0 != key;
            &&& v == Some(JsonView::Str(s)) && is_code && text::trimmed(s).len() > 0 ==> blocks
                == seq![BlockView::Plain(key + ":"@), BlockView::Code(lang, s)]
            &&& v == Some(JsonView::Str(s)) && other && present::big(s) ==> blocks == seq![
                BlockView::Plain(key + ":"@),
                BlockView::Plain(s),
            ]
            &&& v == Some(JsonView::Str(s)) && other && !present::big(s) && text::trimmed(s).len()
                > 0 ==> blocks == seq![BlockView::Plain(key + ": "@ + s)]
            &&& v == Some(JsonView::Str(s)) && !present::big(s) && text::trimmed(s).len() == 0
                ==> blocks == seq![BlockView::Plain(key + ": "@ + written)]
            &&& (v is None || v == Some(JsonView::Null)) ==> blocks == seq![
                BlockView::Plain(key + ": "@ + written),
            ]
        }),
{
    text_laws::only_blank_texts_vanish(s);
}

/// Arguments that are no object are shown as they came, without their margins.
pub proof fn other_arguments_are_shown_raw(name: Seq<char>, raw: Seq<char>)
    ensures
        text::trimmed(raw).len() == 0 ==> present::compact_view(name, raw, None) == (
            None::<Seq<char>>,
            Seq::<BlockView>::empty(),
        ) && present::full_view(name, raw, None) == Seq::<BlockView>::empty(),
        text::trimmed(raw).len() > 0 ==> present::compact_view(name, raw, None) == (
            Some(present::header_line(text::trimmed(raw))),
            Seq::<BlockView>::empty(),
        ) && present::full_view(name, raw, None) == seq![
            BlockView::Plain(text::trimmed(raw)),
        ],
{
}

/// The compact header does not repeat the value that is shown below it.
pub proof fn an_object_is_shown_by_its_fields(
    name: Seq<char>,
    raw: Seq<char>,
    pairs: Seq<(Seq<char>, Seq<char>)>,
    block: BlockView,
    key: Seq<char>,
)
    ensures
        ({
            let args = JsonView::Obj(pairs);
            let fields = present::fields_in_order(name, pairs);
            let c = present::compact_view(name, raw, Some(args));
            &&& present::shown_below(name, args, fields) == Some((block, key)) ==> c.1 == seq![
                block,
            ] && c.0 == present::header_of(present::scalars(fields, Some(key)))
            &&& present::shown_below(name, args, fields) is None ==> c.1.len() == 0 && c.0
                == present::header_of(present::scalars(fields, None))
            &&& name == "python_exec"@ ==> present::full_view(name, raw, Some(args))
                == present::all_field_blocks(fields, Some(("code"@, "python"@)))
            &&& name != "python_exec"@ && name != "fs_write"@ ==> present::full_view(
                name,
                raw,
                Some(args),
            ) == present::all_field_blocks(fields, None)
        }),
{
}

/// A call is shown with both of its sides: in the compact form with a header, in full
/// without one.
pub proof fn a_call_is_shown_on_both_sides(
    p: ToolPresentation,
    name: Seq<char>,
    raw: Seq<char>,
    val: Option<JsonView>,
    result: Seq<char>,
    added: Seq<AddedLanguage>,
)
    ensures
        present::is_shown(p, name, raw, val, result, ArgDetail::Compact, added) ==> json::opt_str(
            p.header_suffix,
        ) == present::compact_view(name, raw, val).0 && present::block_views(p.args@)
            == present::compact_view(name, raw, val).1 && present::block_views(p.result@)
            == present::result_view(name, val, result, added),
        present::is_shown(p, name, raw, val, result, ArgDetail::Full, added) ==> p.header_suffix
            is None && present::block_views(p.args@) == present::full_view(name, raw, val)
            && present::block_views(p.result@) == present::result_view(name, val, result, added),
{
}

// ---------- the result ----------

/// A failed read is told by what its sentence has before the path.
pub proof fn a_failed_read_is_told_by_its_beginning(
    l: AddedLanguage,
    before: Seq<char>,
    rest: Seq<char>,
    added: Seq<AddedLanguage>,
    i: int,
    tail: Seq<char>,
)
    requires
        l.read_failed@ == before.push('{') + rest,
        !before.contains('{'),
    ensures
        present::added_failure(l) == before,
        0 <= i < added.len() && added[i] == l ==> present::is_read_failure(before + tail, added),
{
    text::split_at_separator(before, '{', rest);
    text::split_without_separator(before, '{');
    text::split_is_not_empty(rest, '{');
    if 0 <= i < added.len() && added[i] == l {
        assert((before + tail).subrange(0, before.len() as int) =~= before);
        assert(text::stands_at(before + tail, present::added_failure(added[i]), 0));
    }
}

/// A result is shown by its tool: what a process printed as a console, a file that was
/// read as code, the prose of four tools as markdown, and any other as it stands. A blank
/// one is not shown.
pub proof fn a_result_is_shown_by_its_tool(
    name: Seq<char>,
    args: JsonView,
    result: Seq<char>,
    added: Seq<AddedLanguage>,
)
    ensures
        ({
            let v = present::result_view(name, Some(args), result, added);
            let process = name == "python_exec"@ || name == "code_build"@ || name == "code_run"@
                || name == "code_test"@;
            let prose = name == "web_search"@ || name == "fetch_url"@ || name == "note_recall"@
                || name == "call_subagent"@;
            let st = console::read_lines(
                console::nothing_read(),
                text::lines_of(result),
                present::added_labels(added),
            );
            &&& text::trimmed(result).len() == 0 ==> v.len() == 0
            &&& text::trimmed(result).len() > 0 ==> v.len() == 1 && {
                &&& process && console::is_console(st) ==> v[0] == BlockView::Console(
                    console::section_text(st.cmd),
                    console::section_text(st.out),
                    console::section_text(st.err),
                    st.exit,
                    console::section_text(st.files),
                )
                &&& process && !console::is_console(st) ==> v[0] == BlockView::Plain(result)
                &&& name == "fs_read"@ && !present::is_read_failure(result, added) ==> v[0]
                    == BlockView::Code(present::lang_of(args.str_at("path"@)), result)
                &&& name == "fs_read"@ && present::is_read_failure(result, added) ==> v[0]
                    == BlockView::Plain(result)
                &&& prose ==> v[0] == BlockView::Markdown(result)
                &&& !process && !prose && name != "fs_read"@ ==> v[0] == BlockView::Plain(result)
            }
        }),
{
    text_laws::only_blank_texts_vanish(result);
    reveal_strlit("python_exec");
    reveal_strlit("code_build");
    reveal_strlit("code_run");
    reveal_strlit("code_test");
    reveal_strlit("fs_read");
    reveal_strlit("web_search");
    reveal_strlit("fetch_url");
    reveal_strlit("note_recall");
    reveal_strlit("call_subagent");
    let t = present::PROSE_RESULT_TOOLS@;
    assert(t[0]@ == "web_search"@ && t[1]@ == "fetch_url"@ && t[2]@ == "note_recall"@ && t[3]@
        == "call_subagent"@);
    assert("python_exec"@[0] == 'p' && "code_build"@[0] == 'c' && "code_build"@[1] == 'o');
    assert("code_run"@[1] == 'o' && "code_test"@[1] == 'o' && "call_subagent"@[1] == 'a');
    assert("fs_read"@[1] == 's' && "web_search"@[0] == 'w' && "fetch_url"@[1] == 'e');
    assert("note_recall"@[0] == 'n');
}

// ---------- numbers ----------

proof fn trailing_go(s: Seq<char>, c: char, n: nat)
    ensures
        crate::calc::without_trailing(s + Seq::new(n, |i: int| c), c)
            == crate::calc::without_trailing(s, c),
    decreases n,
{
    let tail = Seq::new(n, |i: int| c);
    if n == 0 {
        assert(s + tail =~= s);
    } else {
        let fewer = Seq::new((n - 1) as nat, |i: int| c);
        trailing_go(s, c, (n - 1) as nat);
        assert((s + tail).last() == c);
        assert((s + tail).drop_last() =~= s + fewer);
    }
}

/// Of a fraction only the zeros at its end go, and with the whole fraction its point. A
/// number without a point keeps its zeros.
pub proof fn idle_zeros_go(whole: Seq<char>, fraction: Seq<char>, zeros: nat, loc: Locale)
    requires
        !whole.contains('.'),
        fraction.len() > 0 ==> fraction.last() != '0' && fraction.last() != '.',
    ensures
        ({
            let idle = Seq::new(zeros, |i: int| '0');
            &&& fraction.len() > 0 ==> crate::calc::without_idle_zeros(
                whole.push('.') + fraction + idle,
            ) == whole.push('.') + fraction
            &&& crate::calc::without_idle_zeros(whole.push('.') + idle) == whole
            &&& crate::calc::without_idle_zeros(whole) == whole
        }),
{
    let idle = Seq::new(zeros, |i: int| '0');
    let point = whole.push('.');
    trailing_go(point + fraction, '0', zeros);
    trailing_go(point, '0', zeros);
    assert((point + idle)[whole.len() as int] == '.');
    assert((point + fraction + idle)[whole.len() as int] == '.');
    if fraction.len() > 0 {
        assert((point + fraction).last() == fraction.last());
    }
    assert(point.last() == '.' && point.drop_last() =~= whole);
    assert(crate::calc::without_trailing(point, '0') == point);
    if whole.len() > 0 {
        assert(whole.contains(whole[whole.len() - 1]));
    }
    reveal_with_fuel(crate::calc::without_trailing, 2);
}

/// A number is written by what it is.
pub proof fn a_figure_is_written(n: i64, s: String, loc: Locale)
    ensures
        crate::calc::figure_text(Figure::NotANumber, loc) == loc.text("calc.number.nan"@),
        crate::calc::figure_text((Figure::Infinite { negative: true }), loc) == "-∞"@,
        crate::calc::figure_text((Figure::Infinite { negative: false }), loc) == "∞"@,
        n >= 0 ==> crate::calc::figure_text(Figure::Whole(n), loc) == text::decimal(n as nat),
        n < 0 ==> crate::calc::figure_text(Figure::Whole(n), loc) == "-"@ + text::decimal(
            (0 - n) as nat,
        ),
        crate::calc::figure_text(Figure::Fixed(s), loc) == crate::calc::without_idle_zeros(s@),
{
    reveal_strlit("-");
    assert("-"@ =~= seq!['-']);
}

/// With the digits before the point a number has twelve, and one below one has twelve
/// behind it.
pub proof fn twelve_digits_are_shown(exponent: int)
    ensures
        exponent < 0 ==> crate::calc::places_of(exponent) == 12,
        0 <= exponent < 12 ==> exponent + 1 + crate::calc::places_of(exponent) == 12,
        exponent >= 12 ==> crate::calc::places_of(exponent) == 0,
{
}

// ---------- the windows of a file ----------

/// A window has the path of its file on its first line, and below it its lines.
pub proof fn one_line_more_in_a_window(
    path: Seq<char>,
    lines: Seq<Seq<char>>,
    start: int,
    end: int,
)
    requires
        0 <= start <= end < lines.len(),
    ensures
        code_search_probe::window_body(path, lines, start, start) == path + "\n"@,
        code_search_probe::window_body(path, lines, start, end + 1)
            == code_search_probe::window_body(path, lines, start, end) + lines[end] + "\n"@,
{
}

/// The text of each window is that of the lines it is of, and it ends only where the file
/// does, where it has forty lines, or where the next line would bring it over nine hundred
/// characters. The next one begins eight lines before its end, or a line behind its
/// beginning where that is further.
pub proof fn a_window_ends_when_full(path: Seq<char>, lines: Seq<Seq<char>>, start: int, i: int)
    requires
        0 <= start < lines.len(),
        0 <= i < code_search_probe::windows_from(path, lines, start).len(),
    ensures
        ({
            let all = code_search_probe::windows_from(path, lines, start);
            let w = all[i];
            &&& w.body == code_search_probe::window_body(path, lines, w.start - 1, w.end)
            &&& w.end == lines.len() || w.end - (w.start - 1) == 40 || w.body.len()
                + lines[w.end].len() + 1 > 900
            &&& i + 1 < all.len() ==> all[i + 1].start - 1 == if w.end - 8 > w.start - 1 {
                w.end - 8
            } else {
                w.start
            }
        }),
    decreases lines.len() - start,
{
    let all = code_search_probe::windows_from(path, lines, start);
    let end = code_search_probe::end_from(path, lines, start);
    code_search_probe::windows_overlap_and_advance(path, lines, start, 0);
    reveal_strlit("\n");
    assert(code_search_probe::window_body(path, lines, start, start) == path + "\n"@);
    a_window_is_filled(path, lines, start, start, path.len() as int + 1);
    assert(all[0].end == end && all[0].start == start + 1);
    if end < lines.len() {
        let next = code_search_probe::next_start(start, end);
        let rest = code_search_probe::windows_from(path, lines, next);
        assert(rest.len() > 0);
        code_search_probe::windows_overlap_and_advance(path, lines, next, 0);
        assert(all[1] == rest[0]);
        if i > 0 {
            a_window_ends_when_full(path, lines, next, i - 1);
            assert(all[i] == rest[i - 1]);
            if i + 1 < all.len() {
                assert(all[i + 1] == rest[i]);
            }
        }
    }
}

proof fn a_window_is_filled(
    path: Seq<char>,
    lines: Seq<Seq<char>>,
    start: int,
    end: int,
    used: int,
)
    requires
        0 <= start <= end <= lines.len(),
        end - start <= 40,
        start < lines.len(),
        code_search_probe::window_body(path, lines, start, end).len() == used,
    ensures
        ({
            let e = code_search_probe::window_end(lines, start, end, used);
            &&& end <= e <= lines.len()
            &&& start < e
            &&& e == lines.len() || e - start == 40 || code_search_probe::window_body(
                path,
                lines,
                start,
                e,
            ).len() + lines[e].len() + 1 > 900
        }),
    decreases lines.len() - end,
{
    if end < lines.len() && end - start < 40 && (end <= start || used + lines[end].len() + 1
        <= 900) {
        reveal_strlit("\n");
        a_window_is_filled(path, lines, start, end + 1, used + lines[end].len() + 1);
    }
}

/// The passages that are found are shown one behind the other, each with its place.
pub proof fn one_passage_more_is_shown(
    chunks: Seq<Chunk>,
    scores: Seq<Score>,
    at: Seq<int>,
    n: int,
)
    requires
        0 <= n < at.len(),
    ensures
        code_search_probe::passages(chunks, scores, at, 0) == Seq::<char>::empty(),
        ({
            let c = chunks[at[n]];
            code_search_probe::passages(chunks, scores, at, n + 1) == code_search_probe::passages(
                chunks,
                scores,
                at,
                n,
            ) + ("\n"@ + c.path@ + ":"@ + text::decimal(c.start as nat) + "-"@ + text::decimal(
                c.end as nat,
            ) + " (score "@ + scores[at[n]].shown@ + ")\n"@ + c.text@ + "\n"@)
        }),
{
}

/// A search gives eight passages unless it is told otherwise, one at least and twenty at
/// most.
pub proof fn passages_are_bounded(args: JsonView, n: u64)
    ensures
        args.uint_at("top_k"@) is None ==> code_search_probe::passages_wanted(args) == 8,
        args.uint_at("top_k"@) == Some(n) && 1 <= n <= 20 ==> code_search_probe::passages_wanted(
            args,
        ) == n,
        args.uint_at("top_k"@) == Some(0u64) ==> code_search_probe::passages_wanted(args) == 1,
        args.uint_at("top_k"@) == Some(n) && n > 20 ==> code_search_probe::passages_wanted(args)
            == 20,
{
}

// ---------- time and models ----------

/// The time is told by the format that is asked for, and otherwise both as it is here and
/// in UTC.
pub proof fn the_time_is_told(now: Moment, f: Seq<char>, s: Seq<char>, u: Seq<char>, loc: Locale)
    ensures
        ({
            let asked = datetime::time_text(now, Some(f), loc);
            let plain = datetime::time_text(now, None, loc);
            let written = crate::times::strftime(now.secs, now.nanos, now.offset, f);
            &&& text::trimmed(f).len() > 0 && written == Some(s) ==> asked == s
            &&& text::trimmed(f).len() > 0 && written is None ==> asked == loc.text1(
                "tool.current_time.err.bad_format"@,
                "fmt"@,
                f,
            )
            &&& text::trimmed(f).len() == 0 ==> asked == plain
            &&& crate::times::strftime(
                now.secs,
                now.nanos,
                now.offset,
                "%Y-%m-%d %H:%M:%S %:z"@,
            ) == Some(s) && crate::times::strftime(
                now.secs,
                now.nanos,
                0,
                "%Y-%m-%d %H:%M:%S UTC"@,
            ) == Some(u) ==> plain == loc.text("tool.current_time.local_label"@) + " "@ + s
                + "\nUTC: "@ + u
        }),
{
    text_laws::only_blank_texts_vanish(f);
}

/// The models that spoke are listed one behind the other, each with its date and how it
/// was run.
pub proof fn one_model_more(records: Seq<LlmChange>, c: LlmChange, date: Seq<char>)
    ensures
        llm::change_rows(Seq::empty()) == Seq::<char>::empty(),
        crate::times::strftime(c.changed_at, 0, 0, "%Y-%m-%d %H:%M UTC"@) == Some(date)
            ==> llm::change_rows(records.push(c)) == llm::change_rows(records) + "\n"@ + (date
            + " — "@ + c.model@ + " ("@ + c.mode@ + ")"@),
{
    assert(records.push(c).drop_last() =~= records);
}

// ---------- parts between occurrences ----------

/// The parts between the occurrences of a text make the whole with it between them, and
/// hold it nowhere.
pub proof fn the_parts_between_occurrences(pieces: Seq<Seq<char>>, pat: Seq<char>)
    requires
        pat.len() > 0,
        text_laws::is_cut(pieces, pat),
    ensures
        text::split_str(text_laws::woven(pieces, pat), pat) == pieces,
    decreases pieces.len(),
{
    let s = text_laws::woven(pieces, pat);
    if pieces.len() == 1 {
        text::find_is_first(s, pat, 0);
        let i = text::find_from(s, pat, 0);
        if i >= 0 {
            assert(s.subrange(i, i + pat.len()) == pat);
        }
        assert(pieces =~= seq![s]);
    } else {
        let first = pieces[0];
        let rest = pieces.skip(1);
        assert(rest.last() == pieces.last());
        assert forall|k: int| 0 <= k < rest.len() - 1 implies text_laws::not_before(
            #[trigger] rest[k] + pat,
            pat,
            rest[k].len() as int,
        ) by {
            assert(rest[k] == pieces[k + 1]);
        }
        the_parts_between_occurrences(rest, pat);
        let tail = text_laws::woven(rest, pat);
        assert(s == first + pat + tail);
        let n = first.len() as int;
        assert(s.subrange(n, n + pat.len()) =~= pat);
        text::find_is_first(s, pat, 0);
        let i = text::find_from(s, pat, 0);
        assert(text::stands_at(s, pat, n));
        assert(i >= 0 && i <= n);
        if i < n {
            assert(text_laws::not_before(pieces[0] + pat, pat, n));
            let j = i;
            assert((first + pat).subrange(j, j + pat.len()) =~= s.subrange(j, j + pat.len()));
        }
        assert(s.take(n) =~= first);
        assert(s.skip(n + pat.len()) =~= tail);
        assert(seq![first] + rest =~= pieces);
    }
}

} // verus!
