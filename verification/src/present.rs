//! How a tool call is shown: a header, the arguments that do not fit into it, and
//! the result.

use vstd::prelude::*;
use crate::console;
use crate::console::Console;
use crate::i18n::{Lang, Locale};
use crate::json;
use crate::json::{Json, JsonView};
use crate::text;

verus! {

broadcast use {text::views_push, json::pair_views_push};

/// A longer string is shown in a block of its own.
pub const BIG_ARG_CHARS: usize = 100;

/// How long a header may be.
pub const HEADER_MAX_CHARS: usize = 100;

/// Tools whose result is prose of our own, shown as markdown. The fragments of a
/// user's files are not: a heading inside one would break out of it.
pub const PROSE_RESULT_TOOLS: [&'static str; 4] = [
    "web_search",
    "fetch_url",
    "note_recall",
    "call_subagent",
];

/// A block of a tool card.
#[derive(Debug, PartialEq, Eq)]
pub enum ToolBlock {
    /// Code in a language; none where `lang` is empty.
    Code { lang: String, text: String },
    /// What a process printed.
    Console(Console),
    /// Text as it stands.
    Plain(String),
    /// Text to be rendered.
    Markdown(String),
}

/// What a [`ToolBlock`] holds.
#[verifier::ext_equal]
pub enum BlockView {
    Code(Seq<char>, Seq<char>),
    Console(Seq<char>, Seq<char>, Seq<char>, Option<i32>, Seq<char>),
    Plain(Seq<char>),
    Markdown(Seq<char>),
}

impl View for ToolBlock {
    type V = BlockView;

    open spec fn view(&self) -> BlockView {
        match *self {
            ToolBlock::Code { lang, text } => BlockView::Code(lang@, text@),
            ToolBlock::Console(c) => BlockView::Console(
                c.command@,
                c.stdout@,
                c.stderr@,
                c.exit,
                c.files@,
            ),
            ToolBlock::Plain(s) => BlockView::Plain(s@),
            ToolBlock::Markdown(s) => BlockView::Markdown(s@),
        }
    }
}

pub open spec fn block_views(v: Seq<ToolBlock>) -> Seq<BlockView> {
    v.map_values(|b: ToolBlock| b@)
}

pub broadcast proof fn block_views_push(v: Seq<ToolBlock>, b: ToolBlock)
    ensures
        #[trigger] block_views(v.push(b)) == block_views(v).push(b@),
{
    assert(block_views(v.push(b)) =~= block_views(v).push(b@));
}

/// How much of the arguments is shown.
#[derive(Debug, Clone, Copy, PartialEq, Eq, Structural)]
pub enum ArgDetail {
    /// What fits into the header.
    Compact,
    /// Everything, below the name.
    Full,
}

/// A tool call as it is shown.
#[derive(Debug)]
pub struct ToolPresentation {
    /// What stands in the brackets behind the name.
    pub header_suffix: Option<String>,
    pub args: Vec<ToolBlock>,
    pub result: Vec<ToolBlock>,
}

// ---------- the order of the fields ----------

/// The fields of a tool in the order of its schema, for the tools in which that is
/// not the order of the alphabet.
pub const FIELD_ORDER: [(&'static str, &'static str); 55] = [
    ("call_subagent", "name"),
    ("call_subagent", "system_message"),
    ("call_subagent", "message"),
    ("code_edit", "path"),
    ("code_edit", "old_string"),
    ("code_edit", "new_string"),
    ("code_edit", "replace_all"),
    ("code_grep", "pattern"),
    ("code_grep", "path"),
    ("code_grep", "glob"),
    ("code_list", "path"),
    ("code_list", "depth"),
    ("code_read", "path"),
    ("code_read", "offset"),
    ("code_read", "limit"),
    ("code_write", "path"),
    ("code_write", "content"),
    ("fetch_url", "url"),
    ("fetch_url", "focus"),
    ("fetch_url", "summarize"),
    ("fs_write", "path"),
    ("fs_write", "content"),
    ("fs_write", "append"),
    ("note_link", "from_id"),
    ("note_link", "to_id"),
    ("note_link", "relation"),
    ("note_merge", "ids"),
    ("note_merge", "content"),
    ("note_recall", "query"),
    ("note_recall", "tags"),
    ("note_recall", "limit"),
    ("note_revise", "id"),
    ("note_revise", "content"),
    ("note_supersede", "old_id"),
    ("note_supersede", "content"),
    ("rag_add", "text"),
    ("rag_add", "source"),
    ("update_self_model", "summary"),
    ("update_self_model", "add_goals"),
    ("update_self_model", "complete_goals"),
    ("update_self_model", "abandon_goals"),
    ("update_user_model", "add_traits"),
    ("update_user_model", "remove_traits"),
    ("update_user_model", "add_interests"),
    ("update_user_model", "remove_interests"),
    ("update_user_model", "relationship_dynamic"),
    ("update_user_model", "note"),
    ("web_search", "query"),
    ("web_search", "max_results"),
    ("web_search", "fetch_content"),
    ("youtube_watch", "url"),
    ("youtube_watch", "focus"),
    ("youtube_watch", "start"),
    ("youtube_watch", "end"),
    ("youtube_watch", "transcript"),
];

/// The table orders this field of this tool.
pub open spec fn is_placed(name: Seq<char>, key: Seq<char>) -> bool {
    exists|i: int|
        0 <= i < FIELD_ORDER@.len() && (#[trigger] FIELD_ORDER@[i]).0@ == name && FIELD_ORDER@[i].1@
            == key
}

/// The fields that the first `n` rows of the table name, in the table's order.
pub open spec fn placed_fields(
    name: Seq<char>,
    pairs: Seq<(Seq<char>, Seq<char>)>,
    n: int,
) -> Seq<(Seq<char>, Seq<char>)>
    decreases n,
{
    if n <= 0 {
        Seq::empty()
    } else {
        let before = placed_fields(name, pairs, n - 1);
        let row = FIELD_ORDER@[n - 1];
        let i = json::key_from(pairs, row.1@, 0);
        if row.0@ == name && i >= 0 {
            before.push(pairs[i])
        } else {
            before
        }
    }
}

/// The fields that the table does not name, in their own order.
pub open spec fn other_fields(name: Seq<char>, pairs: Seq<(Seq<char>, Seq<char>)>) -> Seq<
    (Seq<char>, Seq<char>),
>
    decreases pairs.len(),
{
    if pairs.len() == 0 {
        Seq::empty()
    } else {
        let before = other_fields(name, pairs.drop_last());
        if is_placed(name, pairs.last().0) {
            before
        } else {
            before.push(pairs.last())
        }
    }
}

/// The fields of a call as they are shown: those that the table names first.
pub open spec fn fields_in_order(name: Seq<char>, pairs: Seq<(Seq<char>, Seq<char>)>) -> Seq<
    (Seq<char>, Seq<char>),
> {
    placed_fields(name, pairs, FIELD_ORDER@.len() as int) + other_fields(name, pairs)
}

fn placed(name: &str, key: &str) -> (r: bool)
    ensures
        r == is_placed(name@, key@),
{
    let mut i: usize = 0;
    while i < FIELD_ORDER.len()
        invariant
            i <= FIELD_ORDER@.len(),
            forall|j: int|
                0 <= j < i ==> !((#[trigger] FIELD_ORDER@[j]).0@ == name@ && FIELD_ORDER@[j].1@
                    == key@),
        decreases FIELD_ORDER@.len() - i,
    {
        if text::same(FIELD_ORDER[i].0, name) && text::same(FIELD_ORDER[i].1, key) {
            assert(FIELD_ORDER@[i as int].0@ == name@);
            return true;
        }
        i = i + 1;
    }
    false
}

/// The position of a key among the pairs.
fn position(pairs: &Vec<(String, String)>, key: &str) -> (r: Option<usize>)
    ensures
        match r {
            Some(i) => i < pairs.len() && json::key_from(json::pair_views(pairs@), key@, 0) == i,
            None => json::key_from(json::pair_views(pairs@), key@, 0) == -1,
        },
{
    let ghost all = json::pair_views(pairs@);
    let mut i: usize = 0;
    while i < pairs.len()
        invariant
            i <= pairs.len(),
            all == json::pair_views(pairs@),
            json::key_from(all, key@, i as int) == json::key_from(all, key@, 0),
        decreases pairs.len() - i,
    {
        assert(all[i as int].0 == pairs@[i as int].0@);
        if text::same(pairs[i].0.as_str(), key) {
            return Some(i);
        }
        i = i + 1;
    }
    None
}

/// The fields of a call in the order they are shown in.
pub fn ordered_fields(name: &str, pairs: &Vec<(String, String)>) -> (r: Vec<(String, String)>)
    ensures
        json::pair_views(r@) == fields_in_order(name@, json::pair_views(pairs@)),
{
    let ghost all = json::pair_views(pairs@);
    let mut r: Vec<(String, String)> = Vec::new();
    let mut i: usize = 0;
    assert(json::pair_views(r@) =~= Seq::<(Seq<char>, Seq<char>)>::empty());
    while i < FIELD_ORDER.len()
        invariant
            i <= FIELD_ORDER@.len(),
            all == json::pair_views(pairs@),
            json::pair_views(r@) == placed_fields(name@, all, i as int),
        decreases FIELD_ORDER@.len() - i,
    {
        if text::same(FIELD_ORDER[i].0, name) {
            match position(pairs, FIELD_ORDER[i].1) {
                Some(k) => {
                    assert(all[k as int] == (pairs@[k as int].0@, pairs@[k as int].1@));
                    r.push((pairs[k].0.clone(), pairs[k].1.clone()));
                },
                None => {},
            }
        }
        i = i + 1;
    }
    let ghost first = json::pair_views(r@);
    let mut k: usize = 0;
    assert(all.take(0) =~= Seq::<(Seq<char>, Seq<char>)>::empty());
    while k < pairs.len()
        invariant
            k <= pairs.len(),
            all == json::pair_views(pairs@),
            json::pair_views(r@) =~= first + other_fields(name@, all.take(k as int)),
        decreases pairs.len() - k,
    {
        assert(all.take(k + 1).drop_last() =~= all.take(k as int));
        assert(all.take(k + 1).last() == (pairs@[k as int].0@, pairs@[k as int].1@));
        if !placed(name, pairs[k].0.as_str()) {
            r.push((pairs[k].0.clone(), pairs[k].1.clone()));
        }
        k = k + 1;
    }
    assert(all.take(k as int) =~= all);
    r
}

// ---------- values ----------

/// A scalar as a string; none for what is composed and for null.
pub open spec fn scalar_of(v: Option<JsonView>) -> Option<Seq<char>> {
    match v {
        Some(JsonView::Str(s)) => Some(s),
        Some(JsonView::Num(t, _)) => Some(t),
        Some(JsonView::Bool(true)) => Some("true"@),
        Some(JsonView::Bool(false)) => Some("false"@),
        _ => None,
    }
}

/// A scalar as a string.
pub fn scalar_str(v: &Option<Json>) -> (r: Option<String>)
    ensures
        json::opt_str(r) == scalar_of(json::opt_view(*v)),
{
    match v {
        Some(Json::Str(s)) => Some(s.clone()),
        Some(Json::Num(n)) => Some(n.text.clone()),
        Some(Json::Bool(b)) => if *b {
            Some(text::owned("true"))
        } else {
            Some(text::owned("false"))
        },
        _ => None,
    }
}

/// More than one line, or longer than a header takes.
pub open spec fn big(s: Seq<char>) -> bool {
    s.contains('\n') || s.len() > BIG_ARG_CHARS
}

/// Whether a string is shown in a block of its own.
pub fn is_big(s: &str) -> (r: bool)
    ensures
        r == big(s@),
{
    let v: Vec<char> = text::chars_of(s);
    let mut i: usize = 0;
    while i < v.len()
        invariant
            i <= v.len(),
            v@ == s@,
            forall|j: int| 0 <= j < i ==> s@[j] != '\n',
        decreases v.len() - i,
    {
        if v[i] == '\n' {
            assert(s@[i as int] == '\n');
            return true;
        }
        i = i + 1;
    }
    v.len() > BIG_ARG_CHARS
}

/// A header on one line, cut after so many characters.
pub open spec fn header_line(s: Seq<char>) -> Seq<char> {
    let flat = text::flattened(s);
    if flat.len() <= HEADER_MAX_CHARS {
        flat
    } else {
        flat.take(HEADER_MAX_CHARS as int) + "…"@
    }
}

/// Puts a header on one line and cuts it.
pub fn truncate_header(s: &str) -> (r: String)
    ensures
        r@ == header_line(s@),
        r@.len() <= HEADER_MAX_CHARS + 1,
{
    proof {
        reveal_strlit("…");
    }
    let flat: String = text::flatten(s);
    if text::length(flat.as_str()) <= HEADER_MAX_CHARS {
        flat
    } else {
        text::cat2(text::head(flat.as_str(), HEADER_MAX_CHARS).as_str(), "…")
    }
}

/// `k=v` for each pair.
pub open spec fn assignments(pairs: Seq<(Seq<char>, Seq<char>)>) -> Seq<Seq<char>> {
    pairs.map_values(|p: (Seq<char>, Seq<char>)| p.0 + "="@ + p.1)
}

/// A header of short pairs: a single value stands alone.
pub open spec fn header_of(pairs: Seq<(Seq<char>, Seq<char>)>) -> Option<Seq<char>> {
    if pairs.len() == 0 {
        None
    } else if pairs.len() == 1 {
        Some(header_line(pairs[0].1))
    } else {
        Some(header_line(text::joined(assignments(pairs), ", "@)))
    }
}

/// A header of short pairs.
pub fn header_from_pairs(pairs: &Vec<(String, String)>) -> (r: Option<String>)
    ensures
        json::opt_str(r) == header_of(json::pair_views(pairs@)),
{
    let ghost all = json::pair_views(pairs@);
    if pairs.len() == 0 {
        return None;
    }
    if pairs.len() == 1 {
        assert(all[0].1 == pairs@[0].1@);
        return Some(truncate_header(pairs[0].1.as_str()));
    }
    let mut parts: Vec<String> = Vec::new();
    let mut i: usize = 0;
    while i < pairs.len()
        invariant
            i <= pairs.len(),
            all == json::pair_views(pairs@),
            text::views(parts@) =~= assignments(all).take(i as int),
        decreases pairs.len() - i,
    {
        parts.push(text::cat3(pairs[i].0.as_str(), "=", pairs[i].1.as_str()));
        assert(all[i as int] == (pairs@[i as int].0@, pairs@[i as int].1@));
        i = i + 1;
    }
    assert(assignments(all).take(i as int) =~= assignments(all));
    let raw: String = text::join(&parts, ", ");
    Some(truncate_header(raw.as_str()))
}

// ---------- code ----------

/// What follows the last of these characters; all where there is none.
pub open spec fn behind_last(s: Seq<char>, c: char) -> Seq<char> {
    if text::last_index(s, c) >= 0 {
        s.skip(text::last_index(s, c) + 1)
    } else {
        s
    }
}

/// The last component of a path.
pub open spec fn file_name_of(path: Seq<char>) -> Seq<char> {
    behind_last(behind_last(path, '/'), '\\')
}

/// The language of a file, by its extension: what follows the last dot of its name.
pub open spec fn lang_of(path: Option<Seq<char>>) -> Seq<char> {
    match path {
        Some(p) => {
            let name = file_name_of(p);
            if text::last_index(name, '.') >= 0 {
                text::ascii_lowered(name.skip(text::last_index(name, '.') + 1))
            } else {
                Seq::empty()
            }
        },
        None => Seq::empty(),
    }
}

fn after_separator(s: &str, c: char) -> (r: String)
    ensures
        r@ == behind_last(s@, c),
{
    match text::after_last(s, c) {
        Some(rest) => rest,
        None => text::owned(s),
    }
}

/// The language of a file, by its path: its extension in small letters, nothing where it
/// has none.
pub fn ext_lang(path: Option<String>) -> (r: String)
    ensures
        r@ == lang_of(json::opt_str(path)),
{
    match path {
        Some(p) => {
            let below: String = after_separator(p.as_str(), '/');
            let name: String = after_separator(below.as_str(), '\\');
            match text::after_last(name.as_str(), '.') {
                Some(ext) => text::to_ascii_lower(ext.as_str()),
                None => String::new(),
            }
        },
        None => String::new(),
    }
}

/// The field of a tool that is source text, and its language.
pub open spec fn code_field_of(name: Seq<char>, args: JsonView) -> Option<(Seq<char>, Seq<char>)> {
    if name == "python_exec"@ {
        Some(("code"@, "python"@))
    } else if name == "fs_write"@ {
        Some(("content"@, lang_of(args.str_at("path"@))))
    } else {
        None
    }
}

/// The field of a tool that is source text, and its language.
pub fn code_field(name: &str, args: &Json) -> (r: Option<(&'static str, String)>)
    ensures
        match r {
            Some(f) => code_field_of(name@, args@) == Some((f.0@, f.1@)),
            None => code_field_of(name@, args@) is None,
        },
{
    if text::same(name, "python_exec") {
        Some(("code", text::owned("python")))
    } else if text::same(name, "fs_write") {
        Some(("content", ext_lang(args.get_str("path"))))
    } else {
        None
    }
}

/// The tool's code, where there is some: the block, and the field it is from.
pub open spec fn code_shown(name: Seq<char>, args: JsonView) -> Option<(BlockView, Seq<char>)> {
    match code_field_of(name, args) {
        Some(f) => match args.str_at(f.0) {
            Some(code) if !text::is_blank(code) => Some((BlockView::Code(f.1, code), f.0)),
            _ => None,
        },
        None => None,
    }
}

/// The first of the fields, from `i` on, that holds a large string; -1 where none does.
pub open spec fn big_field(fields: Seq<(Seq<char>, Seq<char>)>, i: int) -> int
    decreases fields.len() - i,
{
    if i < 0 || i >= fields.len() {
        -1
    } else {
        match json::json_of(fields[i].1) {
            Some(JsonView::Str(s)) if big(s) => i,
            _ => big_field(fields, i + 1),
        }
    }
}

/// The block below a compact header: the tool's code, or else its first large string.
pub open spec fn shown_below(
    name: Seq<char>,
    args: JsonView,
    fields: Seq<(Seq<char>, Seq<char>)>,
) -> Option<(BlockView, Seq<char>)> {
    match code_shown(name, args) {
        Some(b) => Some(b),
        None => {
            let i = big_field(fields, 0);
            if i < 0 {
                None
            } else {
                Some(
                    (
                        BlockView::Plain(
                            match json::json_of(fields[i].1) {
                                Some(JsonView::Str(s)) => s,
                                _ => Seq::empty(),
                            },
                        ),
                        fields[i].0,
                    ),
                )
            }
        },
    }
}

fn block_below(name: &str, args: &Json, fields: &Vec<(String, String)>) -> (r: Option<
    (ToolBlock, String),
>)
    ensures
        match r {
            Some(b) => shown_below(name@, args@, json::pair_views(fields@)) == Some((b.0@, b.1@)),
            None => shown_below(name@, args@, json::pair_views(fields@)) is None,
        },
{
    match code_field(name, args) {
        Some((field, lang)) => match args.get_str(field) {
            Some(code) => if !text::blank(code.as_str()) {
                return Some((ToolBlock::Code { lang, text: code }, text::owned(field)));
            },
            None => {},
        },
        None => {},
    }
    let ghost all = json::pair_views(fields@);
    let mut i: usize = 0;
    while i < fields.len()
        invariant
            i <= fields.len(),
            all == json::pair_views(fields@),
            code_shown(name@, args@) is None,
            big_field(all, i as int) == big_field(all, 0),
        decreases fields.len() - i,
    {
        assert(all[i as int] == (fields@[i as int].0@, fields@[i as int].1@));
        match Json::from_text(fields[i].1.as_str()) {
            Some(Json::Str(s)) => if is_big(s.as_str()) {
                return Some((ToolBlock::Plain(s), fields[i].0.clone()));
            },
            _ => {},
        }
        i = i + 1;
    }
    None
}

/// A field's value where it is a scalar. A number stands as it is written in the field.
pub open spec fn field_scalar(written: Seq<char>) -> Option<Seq<char>> {
    match json::json_of(written) {
        Some(JsonView::Num(_, _)) => Some(written),
        v => scalar_of(v),
    }
}

fn scalar_field(written: &str) -> (r: Option<String>)
    ensures
        json::opt_str(r) == field_scalar(written@),
{
    let v: Option<Json> = Json::from_text(written);
    match &v {
        Some(Json::Num(_)) => Some(text::owned(written)),
        _ => scalar_str(&v),
    }
}

/// The short scalars among the fields, without the one that is shown below.
pub open spec fn scalars(fields: Seq<(Seq<char>, Seq<char>)>, below: Option<Seq<char>>) -> Seq<
    (Seq<char>, Seq<char>),
>
    decreases fields.len(),
{
    if fields.len() == 0 {
        Seq::empty()
    } else {
        let before = scalars(fields.drop_last(), below);
        let f = fields.last();
        if below == Some(f.0) {
            before
        } else {
            match field_scalar(f.1) {
                Some(s) if !text::is_blank(s) => before.push((f.0, s)),
                _ => before,
            }
        }
    }
}

/// The short scalars among the fields.
pub fn scalar_pairs(fields: &Vec<(String, String)>, below: &Option<String>) -> (r: Vec<
    (String, String),
>)
    ensures
        json::pair_views(r@) == scalars(json::pair_views(fields@), json::opt_str(*below)),
{
    let ghost all = json::pair_views(fields@);
    let ghost skip = json::opt_str(*below);
    let mut r: Vec<(String, String)> = Vec::new();
    let mut i: usize = 0;
    assert(all.take(0) =~= Seq::<(Seq<char>, Seq<char>)>::empty());
    assert(json::pair_views(r@) =~= Seq::<(Seq<char>, Seq<char>)>::empty());
    while i < fields.len()
        invariant
            i <= fields.len(),
            all == json::pair_views(fields@),
            skip == json::opt_str(*below),
            json::pair_views(r@) == scalars(all.take(i as int), skip),
        decreases fields.len() - i,
    {
        assert(all.take(i + 1).drop_last() =~= all.take(i as int));
        assert(all.take(i + 1).last() == (fields@[i as int].0@, fields@[i as int].1@));
        let consumed: bool = match below {
            Some(k) => text::same(k.as_str(), fields[i].0.as_str()),
            None => false,
        };
        if !consumed {
            match scalar_field(fields[i].1.as_str()) {
                Some(s) => if !text::blank(s.as_str()) {
                    r.push((fields[i].0.clone(), s));
                },
                None => {},
            }
        }
        i = i + 1;
    }
    assert(all.take(i as int) =~= all);
    r
}

// ---------- the two ways to show arguments ----------

/// The raw text in place of arguments that are no object.
pub open spec fn compact_view(name: Seq<char>, raw: Seq<char>, val: Option<JsonView>) -> (
    Option<Seq<char>>,
    Seq<BlockView>,
) {
    match val {
        Some(JsonView::Obj(pairs)) => {
            let fields = fields_in_order(name, pairs);
            match shown_below(name, JsonView::Obj(pairs), fields) {
                Some(b) => (header_of(scalars(fields, Some(b.1))), seq![b.0]),
                None => (header_of(scalars(fields, None)), Seq::empty()),
            }
        },
        _ => {
            let t = text::trimmed(raw);
            (
                if t.len() == 0 {
                    None
                } else {
                    Some(header_line(t))
                },
                Seq::empty(),
            )
        },
    }
}

/// As much as fits into the header, and below it one value that is too large for it.
pub fn compact_args(name: &str, raw: &str, val: &Option<Json>) -> (r: (
    Option<String>,
    Vec<ToolBlock>,
))
    ensures
        ({
            let v = compact_view(name@, raw@, json::opt_view(*val));
            json::opt_str(r.0) == v.0 && block_views(r.1@) == v.1
        }),
{
    broadcast use block_views_push;

    let mut blocks: Vec<ToolBlock> = Vec::new();
    assert(block_views(blocks@) =~= Seq::<BlockView>::empty());
    match val {
        Some(args) => match args {
            Json::Obj(pairs) => {
                let fields: Vec<(String, String)> = ordered_fields(name, pairs);
                let mut below: Option<String> = None;
                match block_below(name, args, &fields) {
                    Some((block, field)) => {
                        let ghost shown = block@;
                        blocks.push(block);
                        assert(block_views(blocks@) =~= seq![shown]);
                        below = Some(field);
                    },
                    None => {},
                }
                let pairs_shown: Vec<(String, String)> = scalar_pairs(&fields, &below);
                return (header_from_pairs(&pairs_shown), blocks);
            },
            _ => {},
        },
        None => {},
    }
    let t: String = text::trim(raw);
    if t.as_str().is_empty() {
        (None, blocks)
    } else {
        (Some(truncate_header(t.as_str())), blocks)
    }
}

/// One field in full: `key: value` on a line, or the value under its key.
pub open spec fn field_blocks(
    f: (Seq<char>, Seq<char>),
    code: Option<(Seq<char>, Seq<char>)>,
) -> Seq<BlockView> {
    let v = json::json_of(f.1);
    match v {
        Some(JsonView::Str(s)) if code is Some && (code->0).0 == f.0 && !text::is_blank(s) => seq![
            BlockView::Plain(f.0 + ":"@),
            BlockView::Code((code->0).1, s),
        ],
        Some(JsonView::Str(s)) if big(s) => seq![
            BlockView::Plain(f.0 + ":"@),
            BlockView::Plain(s),
        ],
        _ => match field_scalar(f.1) {
            Some(s) if !text::is_blank(s) => seq![BlockView::Plain(f.0 + ": "@ + s)],
            _ => seq![BlockView::Plain(f.0 + ": "@ + f.1)],
        },
    }
}

pub open spec fn all_field_blocks(
    fields: Seq<(Seq<char>, Seq<char>)>,
    code: Option<(Seq<char>, Seq<char>)>,
) -> Seq<BlockView>
    decreases fields.len(),
{
    if fields.len() == 0 {
        Seq::empty()
    } else {
        all_field_blocks(fields.drop_last(), code) + field_blocks(fields.last(), code)
    }
}

/// Every argument in full.
pub open spec fn full_view(name: Seq<char>, raw: Seq<char>, val: Option<JsonView>) -> Seq<
    BlockView,
> {
    match val {
        Some(JsonView::Obj(pairs)) => all_field_blocks(
            fields_in_order(name, pairs),
            code_field_of(name, JsonView::Obj(pairs)),
        ),
        _ => {
            let t = text::trimmed(raw);
            if t.len() == 0 {
                Seq::empty()
            } else {
                seq![BlockView::Plain(t)]
            }
        },
    }
}

/// Every argument in full.
pub fn full_args(name: &str, raw: &str, val: &Option<Json>) -> (r: Vec<ToolBlock>)
    ensures
        block_views(r@) == full_view(name@, raw@, json::opt_view(*val)),
{
    broadcast use block_views_push;

    let mut blocks: Vec<ToolBlock> = Vec::new();
    assert(block_views(blocks@) =~= Seq::<BlockView>::empty());
    match val {
        Some(args) => match args {
            Json::Obj(pairs) => {
                let fields: Vec<(String, String)> = ordered_fields(name, pairs);
                let code: Option<(&'static str, String)> = code_field(name, args);
                let ghost cv = code_field_of(name@, args@);
                let ghost all = json::pair_views(fields@);
                let mut i: usize = 0;
                assert(all.take(0) =~= Seq::<(Seq<char>, Seq<char>)>::empty());
                while i < fields.len()
                    invariant
                        i <= fields.len(),
                        all == json::pair_views(fields@),
                        match code {
                            Some(f) => cv == Some((f.0@, f.1@)),
                            None => cv is None,
                        },
                        block_views(blocks@) == all_field_blocks(all.take(i as int), cv),
                    decreases fields.len() - i,
                {
                    let ghost before = block_views(blocks@);
                    let ghost f = (fields@[i as int].0@, fields@[i as int].1@);
                    assert(all.take(i + 1).drop_last() =~= all.take(i as int));
                    assert(all.take(i + 1).last() == f);
                    push_field(&fields[i].0, &fields[i].1, &code, &mut blocks);
                    assert(block_views(blocks@) =~= before + field_blocks(f, cv));
                    i = i + 1;
                }
                assert(all.take(i as int) =~= all);
                return blocks;
            },
            _ => {},
        },
        None => {},
    }
    let t: String = text::trim(raw);
    if !t.as_str().is_empty() {
        blocks.push(ToolBlock::Plain(t));
        assert(block_views(blocks@) =~= seq![BlockView::Plain(text::trimmed(raw@))]);
    }
    blocks
}

fn push_field(
    key: &String,
    raw: &String,
    code: &Option<(&'static str, String)>,
    blocks: &mut Vec<ToolBlock>,
)
    ensures
        block_views(final(blocks)@) == block_views(old(blocks)@) + field_blocks(
            (key@, raw@),
            match *code {
                Some(f) => Some((f.0@, f.1@)),
                None => None,
            },
        ),
{
    broadcast use block_views_push;

    let ghost cv: Option<(Seq<char>, Seq<char>)> = match code {
        Some(f) => Some((f.0@, f.1@)),
        None => None,
    };
    let ghost before = block_views(blocks@);
    let v: Option<Json> = Json::from_text(raw.as_str());
    match &v {
        Some(Json::Str(s)) => {
            match code {
                Some(c) => if text::same(c.0, key.as_str()) && !text::blank(s.as_str()) {
                    blocks.push(ToolBlock::Plain(text::cat2(key.as_str(), ":")));
                    blocks.push(ToolBlock::Code { lang: c.1.clone(), text: s.clone() });
                    assert(block_views(blocks@) =~= before + field_blocks((key@, raw@), cv));
                    return;
                },
                None => {},
            }
            if is_big(s.as_str()) {
                blocks.push(ToolBlock::Plain(text::cat2(key.as_str(), ":")));
                blocks.push(ToolBlock::Plain(s.clone()));
                assert(block_views(blocks@) =~= before + field_blocks((key@, raw@), cv));
                return;
            }
        },
        _ => {},
    }
    match scalar_field(raw.as_str()) {
        Some(s) => if !text::blank(s.as_str()) {
            blocks.push(ToolBlock::Plain(text::cat3(key.as_str(), ": ", s.as_str())));
            assert(block_views(blocks@) =~= before + field_blocks((key@, raw@), cv));
            return;
        },
        None => {},
    }
    blocks.push(ToolBlock::Plain(text::cat3(key.as_str(), ": ", raw.as_str())));
    assert(block_views(blocks@) =~= before + field_blocks((key@, raw@), cv));
}

// ---------- the result ----------

/// A failed read in a language, up to the path.
pub open spec fn read_failure(lang: Lang) -> Seq<char> {
    text::split(Locale { lang }.text("tool.fs_read.result.read_failed"@), '{')[0]
}

/// The beginnings of a failed read, in each language.
pub fn fs_read_failure_prefixes() -> (r: Vec<String>)
    ensures
        r@.len() == 2,
        r@[0]@ == read_failure(Lang::Ru),
        r@[1]@ == read_failure(Lang::En),
{
    let mut r: Vec<String> = Vec::new();
    let ru: Vec<String> = text::split_on(
        Lang::Ru.locale().t("tool.fs_read.result.read_failed"),
        '{',
    );
    let en: Vec<String> = text::split_on(
        Lang::En.locale().t("tool.fs_read.result.read_failed"),
        '{',
    );
    proof {
        assert(text::views(ru@)[0] == ru@[0]@);
        assert(text::views(en@)[0] == en@[0]@);
    }
    r.push(ru[0].clone());
    r.push(en[0].clone());
    r
}

/// A language that was added to those of the library, as far as results are recognized
/// by it.
#[derive(Debug)]
pub struct AddedLanguage {
    /// What stands before an exit code.
    pub exit_label: String,
    /// What a failed read is answered with, the path and the error in braces.
    pub read_failed: String,
}

/// The exit labels of the languages that were added.
pub open spec fn added_labels(added: Seq<AddedLanguage>) -> Seq<Seq<char>> {
    added.map_values(|l: AddedLanguage| l.exit_label@)
}

fn list_labels(added: &Vec<AddedLanguage>) -> (r: Vec<String>)
    ensures
        text::views(r@) == added_labels(added@),
{
    let ghost all = added_labels(added@);
    let mut r: Vec<String> = Vec::new();
    let mut i: usize = 0;
    while i < added.len()
        invariant
            i <= added.len(),
            all == added_labels(added@),
            text::views(r@) =~= all.take(i as int),
        decreases added.len() - i,
    {
        r.push(added[i].exit_label.clone());
        i = i + 1;
    }
    assert(all.take(i as int) =~= all);
    r
}

/// A failed read in a language that was added, up to the path.
pub open spec fn added_failure(l: AddedLanguage) -> Seq<char> {
    text::split(l.read_failed@, '{')[0]
}

/// The result tells of a failed read, in whichever language.
pub open spec fn is_read_failure(result: Seq<char>, added: Seq<AddedLanguage>) -> bool {
    ||| text::stands_at(result, read_failure(Lang::Ru), 0)
    ||| text::stands_at(result, read_failure(Lang::En), 0)
    ||| exists|i: int|
        0 <= i < added.len() && text::stands_at(result, added_failure(#[trigger] added[i]), 0)
}

fn read_failed(result: &str, added: &Vec<AddedLanguage>) -> (r: bool)
    ensures
        r == is_read_failure(result@, added@),
{
    let failed: Vec<String> = fs_read_failure_prefixes();
    if text::starts_with(result, failed[0].as_str()) || text::starts_with(
        result,
        failed[1].as_str(),
    ) {
        return true;
    }
    let mut i: usize = 0;
    while i < added.len()
        invariant
            i <= added.len(),
            forall|j: int|
                0 <= j < i ==> !text::stands_at(result@, added_failure(#[trigger] added@[j]), 0),
        decreases added.len() - i,
    {
        let parts: Vec<String> = text::split_on(added[i].read_failed.as_str(), '{');
        proof {
            text::split_is_not_empty(added@[i as int].read_failed@, '{');
            assert(text::views(parts@).len() == parts@.len());
            assert(text::views(parts@)[0] == parts@[0]@);
        }
        if text::starts_with(result, parts[0].as_str()) {
            assert(text::stands_at(result@, added_failure(added@[i as int]), 0));
            return true;
        }
        i = i + 1;
    }
    false
}

/// `name` is one of the tools that answer in prose.
pub open spec fn is_prose(name: Seq<char>) -> bool {
    exists|i: int|
        0 <= i < PROSE_RESULT_TOOLS@.len() && (#[trigger] PROSE_RESULT_TOOLS@[i])@ == name
}

fn prose(name: &str) -> (r: bool)
    ensures
        r == is_prose(name@),
{
    let mut i: usize = 0;
    while i < PROSE_RESULT_TOOLS.len()
        invariant
            i <= PROSE_RESULT_TOOLS@.len(),
            forall|j: int| 0 <= j < i ==> (#[trigger] PROSE_RESULT_TOOLS@[j])@ != name@,
        decreases PROSE_RESULT_TOOLS@.len() - i,
    {
        if text::same(PROSE_RESULT_TOOLS[i], name) {
            assert(PROSE_RESULT_TOOLS@[i as int]@ == name@);
            return true;
        }
        i = i + 1;
    }
    false
}

/// A tool whose result is what a process printed.
pub open spec fn runs_process(name: Seq<char>) -> bool {
    name == "python_exec"@ || name == crate::code::CODE_BUILD_ID@ || name
        == crate::code::CODE_RUN_ID@ || name == crate::code::CODE_TEST_ID@
}

/// The result of a call, as blocks.
pub open spec fn result_view(
    name: Seq<char>,
    args: Option<JsonView>,
    result: Seq<char>,
    added: Seq<AddedLanguage>,
) -> Seq<BlockView> {
    let st = console::read_lines(
        console::nothing_read(),
        text::lines_of(result),
        added_labels(added),
    );
    if text::is_blank(result) {
        Seq::empty()
    } else if runs_process(name) {
        if console::is_console(st) {
            seq![
                BlockView::Console(
                    console::section_text(st.cmd),
                    console::section_text(st.out),
                    console::section_text(st.err),
                    st.exit,
                    console::section_text(st.files),
                ),
            ]
        } else {
            seq![BlockView::Plain(result)]
        }
    } else if name == crate::fs::FS_READ_ID@ && !is_read_failure(result, added) {
        seq![
            BlockView::Code(
                lang_of(
                    match args {
                        Some(a) => a.str_at("path"@),
                        None => None,
                    },
                ),
                result,
            ),
        ]
    } else if is_prose(name) {
        seq![BlockView::Markdown(result)]
    } else {
        seq![BlockView::Plain(result)]
    }
}

/// The result of a call, as blocks: what a process printed by its sections, a file
/// as code, prose rendered, the rest as it stands.
pub fn present_result(
    name: &str,
    args: &Option<Json>,
    result: &str,
    added: &Vec<AddedLanguage>,
) -> (r: Vec<ToolBlock>)
    ensures
        block_views(r@) == result_view(name@, json::opt_view(*args), result@, added@),
{
    broadcast use block_views_push;

    let mut r: Vec<ToolBlock> = Vec::new();
    assert(block_views(r@) =~= Seq::<BlockView>::empty());
    if text::blank(result) {
        return r;
    }
    if text::same(name, "python_exec") || text::same(name, crate::code::CODE_BUILD_ID)
        || text::same(name, crate::code::CODE_RUN_ID) || text::same(
        name,
        crate::code::CODE_TEST_ID,
    ) {
        let labels: Vec<String> = list_labels(added);
        match console::parse_console_with(result, &labels) {
            Some(c) => {
                r.push(ToolBlock::Console(c));
            },
            None => {
                r.push(ToolBlock::Plain(text::owned(result)));
            },
        }
        assert(block_views(r@) =~= result_view(name@, json::opt_view(*args), result@, added@));
        return r;
    }
    if text::same(name, crate::fs::FS_READ_ID) {
        if !read_failed(result, added) {
            let path: Option<String> = match args {
                Some(a) => a.get_str("path"),
                None => None,
            };
            r.push(ToolBlock::Code { lang: ext_lang(path), text: text::owned(result) });
            assert(block_views(r@) =~= result_view(name@, json::opt_view(*args), result@, added@));
            return r;
        }
    }
    if prose(name) {
        r.push(ToolBlock::Markdown(text::owned(result)));
    } else {
        r.push(ToolBlock::Plain(text::owned(result)));
    }
    assert(block_views(r@) =~= result_view(name@, json::opt_view(*args), result@, added@));
    r
}

/// `p` is the call shown with these arguments read.
pub open spec fn is_shown(
    p: ToolPresentation,
    name: Seq<char>,
    raw: Seq<char>,
    val: Option<JsonView>,
    result: Seq<char>,
    detail: ArgDetail,
    added: Seq<AddedLanguage>,
) -> bool {
    &&& block_views(p.result@) == result_view(name, val, result, added)
    &&& match detail {
        ArgDetail::Compact => {
            &&& json::opt_str(p.header_suffix) == compact_view(name, raw, val).0
            &&& block_views(p.args@) == compact_view(name, raw, val).1
        },
        ArgDetail::Full => {
            &&& p.header_suffix is None
            &&& block_views(p.args@) == full_view(name, raw, val)
        },
    }
}

/// A call of `name` as it is shown, by the arguments as they were read.
pub fn present_read(
    name: &str,
    arguments: &str,
    val: &Option<Json>,
    result: &str,
    detail: ArgDetail,
    added: &Vec<AddedLanguage>,
) -> (r: ToolPresentation)
    ensures
        is_shown(r, name@, arguments@, json::opt_view(*val), result@, detail, added@),
{
    let shown: Vec<ToolBlock> = present_result(name, val, result, added);
    match detail {
        ArgDetail::Compact => {
            let (header_suffix, args) = compact_args(name, arguments, val);
            ToolPresentation { header_suffix, args, result: shown }
        },
        ArgDetail::Full => ToolPresentation {
            header_suffix: None,
            args: full_args(name, arguments, val),
            result: shown,
        },
    }
}

/// A call of `name` as it is shown. Arguments that are no JSON object stand as the
/// text they came in.
pub fn present(name: &str, arguments: &str, result: &str, detail: ArgDetail) -> (r:
    ToolPresentation)
    ensures
        is_shown(
            r,
            name@,
            arguments@,
            json::json_of(arguments@),
            result@,
            detail,
            Seq::empty(),
        ),
{
    let none: Vec<AddedLanguage> = Vec::new();
    assert(none@ =~= Seq::<AddedLanguage>::empty());
    present_with(name, arguments, result, detail, &none)
}

/// A call of `name` as it is shown, where languages were added to those of the library.
pub fn present_with(
    name: &str,
    arguments: &str,
    result: &str,
    detail: ArgDetail,
    added: &Vec<AddedLanguage>,
) -> (r: ToolPresentation)
    ensures
        is_shown(r, name@, arguments@, json::json_of(arguments@), result@, detail, added@),
{
    let val: Option<Json> = Json::from_text(arguments);
    present_read(name, arguments, &val, result, detail, added)
}

// ---------- what is shown of the fields ----------

proof fn key_is_found(pairs: Seq<(Seq<char>, Seq<char>)>, k: int, i: int)
    requires
        json::keys_differ(pairs),
        0 <= i <= k < pairs.len(),
    ensures
        json::key_from(pairs, pairs[k].0, i) == k,
    decreases k - i,
{
    if i < k {
        assert(pairs[i].0 != pairs[k].0);
        key_is_found(pairs, k, i + 1);
    }
}

proof fn found_key_is_there(pairs: Seq<(Seq<char>, Seq<char>)>, key: Seq<char>, i: int)
    requires
        0 <= i,
    ensures
        json::key_from(pairs, key, i) >= 0 ==> i <= json::key_from(pairs, key, i) < pairs.len(),
    decreases pairs.len() - i,
{
    if i < pairs.len() && pairs[i].0 != key {
        found_key_is_there(pairs, key, i + 1);
    }
}

proof fn placed_are_fields(
    name: Seq<char>,
    pairs: Seq<(Seq<char>, Seq<char>)>,
    n: int,
    f: (Seq<char>, Seq<char>),
)
    requires
        0 <= n <= FIELD_ORDER@.len(),
    ensures
        placed_fields(name, pairs, n).contains(f) ==> pairs.contains(f),
    decreases n,
{
    if n > 0 {
        placed_are_fields(name, pairs, n - 1, f);
        let before = placed_fields(name, pairs, n - 1);
        let now = placed_fields(name, pairs, n);
        let i = json::key_from(pairs, FIELD_ORDER@[n - 1].1@, 0);
        found_key_is_there(pairs, FIELD_ORDER@[n - 1].1@, 0);
        if now.contains(f) {
            let k = choose|k: int| 0 <= k < now.len() && now[k] == f;
            if k < before.len() {
                assert(before[k] == f);
            } else {
                assert(f == pairs[i]);
            }
        }
    }
}

proof fn placed_field_is_kept(
    name: Seq<char>,
    pairs: Seq<(Seq<char>, Seq<char>)>,
    row: int,
    n: int,
    k: int,
)
    requires
        json::keys_differ(pairs),
        0 <= k < pairs.len(),
        0 <= row < n <= FIELD_ORDER@.len(),
        FIELD_ORDER@[row].0@ == name,
        FIELD_ORDER@[row].1@ == pairs[k].0,
    ensures
        placed_fields(name, pairs, n).contains(pairs[k]),
    decreases n,
{
    let now = placed_fields(name, pairs, n);
    let before = placed_fields(name, pairs, n - 1);
    if row == n - 1 {
        key_is_found(pairs, k, 0);
        assert(now[now.len() - 1] == pairs[k]);
    } else {
        placed_field_is_kept(name, pairs, row, n - 1, k);
        let j = choose|j: int| 0 <= j < before.len() && before[j] == pairs[k];
        assert(now[j] == pairs[k]);
    }
}

proof fn others_are_fields(
    name: Seq<char>,
    pairs: Seq<(Seq<char>, Seq<char>)>,
    f: (Seq<char>, Seq<char>),
)
    ensures
        other_fields(name, pairs).contains(f) <==> pairs.contains(f) && !is_placed(name, f.0),
    decreases pairs.len(),
{
    if pairs.len() > 0 {
        let t = pairs.drop_last();
        let before = other_fields(name, t);
        let now = other_fields(name, pairs);
        others_are_fields(name, t, f);
        if now.contains(f) {
            let k = choose|k: int| 0 <= k < now.len() && now[k] == f;
            if k < before.len() {
                assert(before[k] == f);
                let j = choose|j: int| 0 <= j < t.len() && t[j] == f;
                assert(pairs[j] == f);
            } else {
                assert(pairs[pairs.len() - 1] == f);
            }
        }
        if pairs.contains(f) && !is_placed(name, f.0) {
            let j = choose|j: int| 0 <= j < pairs.len() && pairs[j] == f;
            if j < t.len() {
                assert(t[j] == f);
                let k = choose|k: int| 0 <= k < before.len() && before[k] == f;
                assert(now[k] == f);
            } else {
                assert(now[now.len() - 1] == f);
            }
        }
    }
}

/// Putting the fields in order loses none of them and brings in none, whether or
/// not the table knows about them.
pub proof fn every_field_is_shown(
    name: Seq<char>,
    pairs: Seq<(Seq<char>, Seq<char>)>,
    f: (Seq<char>, Seq<char>),
)
    requires
        json::keys_differ(pairs),
    ensures
        fields_in_order(name, pairs).contains(f) <==> pairs.contains(f),
{
    let n = FIELD_ORDER@.len() as int;
    let first = placed_fields(name, pairs, n);
    let rest = other_fields(name, pairs);
    let all = fields_in_order(name, pairs);
    placed_are_fields(name, pairs, n, f);
    others_are_fields(name, pairs, f);
    if all.contains(f) {
        let k = choose|k: int| 0 <= k < all.len() && all[k] == f;
        if k < first.len() {
            assert(first[k] == f);
        } else {
            assert(rest[k - first.len()] == f);
        }
    }
    if pairs.contains(f) {
        let k = choose|k: int| 0 <= k < pairs.len() && pairs[k] == f;
        if is_placed(name, f.0) {
            let row = choose|row: int|
                0 <= row < FIELD_ORDER@.len() && (#[trigger] FIELD_ORDER@[row]).0@ == name
                    && FIELD_ORDER@[row].1@ == f.0;
            placed_field_is_kept(name, pairs, row, n, k);
            let j = choose|j: int| 0 <= j < first.len() && first[j] == f;
            assert(all[j] == f);
        } else {
            let j = choose|j: int| 0 <= j < rest.len() && rest[j] == f;
            assert(all[first.len() + j] == f);
        }
    }
}

} // verus!
