//! What orders, arguments and the sentences of the tools come to, said of what goes in.

use vstd::prelude::*;
use crate::attachment;
use crate::attachment::{Attachment, AttachmentHit};
use crate::calc::lex;
use crate::calc::lex::{CalcErrorView, TokenView};
use crate::chats;
use crate::chats::{Chat, ChatRefView};
use crate::code::command;
use crate::code::file;
use crate::code::look;
use crate::code::paths::CanonPath;
use crate::code::CommandSlot;
use crate::code_search_probe;
use crate::console;
use crate::console::Console;
use crate::dialogue;
use crate::dialogue::{ApiMessage, ApiRole, Message, MessageRole};
use crate::fetch;
use crate::fetch::{FetchError, PageView};
use crate::fs;
use crate::history;
use crate::i18n::Locale;
use crate::introspection;
use crate::json;
use crate::json::JsonView;
use crate::mcp;
use crate::mcp::McpToolView;
use crate::meta::ToolInfo;
use crate::notes;
use crate::notes::overview::Similar;
use crate::notes::recall;
use crate::notes::self_notes::Edge;
use crate::notes::NoteView;
use crate::order;
use crate::registry;
use crate::registry::Entry;
use crate::sampling;
use crate::schema::ToolSchema;
use crate::text;
use crate::text_laws;
use crate::times::Moment;

verus! {

// ---------- orders ----------

/// The greatest come first, and what is as great stays as it came. Every position is
/// there, and none twice.
pub proof fn the_greatest_come_first(keys: Seq<i128>, n: int, i: int, j: int)
    requires
        0 <= n <= keys.len(),
        0 <= i < j < n,
    ensures
        ({
            let at = order::falling(keys, n);
            &&& at.len() == n
            &&& 0 <= at[i] < n && 0 <= at[j] < n && at[i] != at[j]
            &&& keys[at[i]] > keys[at[j]] || keys[at[i]] == keys[at[j]] && at[i] < at[j]
        }),
    decreases n,
{
    order::falling_is_an_order(keys, n);
    let at = order::falling(keys, n);
    assert(keys[at[i]] >= keys[at[j]]);
    as_they_came(keys, n, i, j);
}

proof fn as_they_came(keys: Seq<i128>, n: int, i: int, j: int)
    requires
        0 <= n <= keys.len(),
        0 <= i < j < n,
    ensures
        ({
            let at = order::falling(keys, n);
            keys[at[i]] == keys[at[j]] ==> at[i] < at[j]
        }),
    decreases n,
{
    let t = order::falling(keys, n - 1);
    order::falling_is_an_order(keys, n - 1);
    order::falling_is_an_order(keys, n);
    let p = order::falling_place(keys, t, n - 1, 0);
    place_is_behind(keys, t, n - 1, 0);
    let at = t.insert(p, n - 1);
    if j < p {
        as_they_came(keys, n - 1, i, j);
    } else if j == p {
        assert(at[j] == n - 1 && at[i] == t[i]);
    } else if i == p {
        assert(at[i] == n - 1 && at[j] == t[j - 1]);
        assert(keys[t[p]] < keys[n - 1]);
        if j - 1 > p {
            assert(keys[t[p]] >= keys[t[j - 1]]);
        }
    } else if i < p {
        as_they_came(keys, n - 1, i, j - 1);
        assert(at[i] == t[i] && at[j] == t[j - 1]);
    } else {
        as_they_came(keys, n - 1, i - 1, j - 1);
        assert(at[i] == t[i - 1] && at[j] == t[j - 1]);
    }
}

proof fn place_is_behind(keys: Seq<i128>, idx: Seq<int>, x: int, i: int)
    requires
        0 <= i <= idx.len(),
    ensures
        ({
            let p = order::falling_place(keys, idx, x, i);
            i <= p <= idx.len() && (p < idx.len() ==> keys[idx[p]] < keys[x])
        }),
    decreases idx.len() - i,
{
    if i < idx.len() && keys[idx[i]] >= keys[x] {
        place_is_behind(keys, idx, x, i + 1);
    }
}

/// Texts are put in the order of the alphabet, every one of them once.
pub proof fn texts_rise(keys: Seq<Seq<char>>, n: int, i: int, j: int)
    requires
        0 <= n <= keys.len(),
        0 <= i < j < n,
    ensures
        ({
            let at = order::rising(keys, n);
            &&& at.len() == n
            &&& 0 <= at[i] < n && 0 <= at[j] < n && at[i] != at[j]
            &&& text::not_after(keys[at[i]], keys[at[j]])
        }),
{
    order::rising_is_an_order(keys, n);
}

/// Of two conversations the one that was active later comes first.
pub proof fn later_conversations_come_first(refs: Seq<ChatRefView>, i: int, j: int)
    requires
        0 <= i < j < refs.len(),
    ensures
        ({
            let at = chats::by_recency(refs);
            let a = refs[at[i]].modified_at;
            let b = refs[at[j]].modified_at;
            &&& at.len() == refs.len() && at[i] != at[j]
            &&& 0 <= at[i] < refs.len() && 0 <= at[j] < refs.len()
            &&& a.secs > b.secs || a.secs == b.secs && a.nanos >= b.nanos
        }),
{
    chats::the_most_recent_come_first(refs);
}

/// The most alike come first.
pub proof fn the_most_alike_come_first(sims: Seq<Similar>, idx: Seq<int>, i: int, j: int)
    requires
        0 <= i < j < idx.len(),
    ensures
        notes::overview::ranks_fall(sims, idx) ==> sims[idx[i]].score.rank
            >= sims[idx[j]].score.rank,
{
}

// ---------- arguments ----------

/// An argument of a call counts where it is more than white space.
pub proof fn arguments_are_more_than_blank(args: JsonView, key: Seq<char>, s: Seq<char>)
    ensures
        args.str_at(key) == Some(s) && text::trimmed(s).len() > 0 ==> look::filled_arg(args, key)
            == Some(s) && fetch::filled_arg(args, key) == Some(text::trimmed(s)),
        args.str_at(key) == Some(s) && text::trimmed(s).len() == 0 ==> look::filled_arg(args, key)
            is None && fetch::filled_arg(args, key) is None,
        args.str_at(key) is None ==> look::filled_arg(args, key) is None && fetch::filled_arg(
            args,
            key,
        ) is None,
        args.str_at("path"@) == Some(s) && text::trimmed(s).len() > 0 ==> fs::path_of(args) == Some(
            s,
        ),
        args.str_at("path"@) == Some(s) && text::trimmed(s).len() == 0 ==> fs::path_of(args)
            is None,
        args.str_at("path"@) is None ==> fs::path_of(args) is None,
        args.str_at("expression"@) == Some(s) && text::trimmed(s).len() > 0
            ==> crate::calc::expression_of(args) == Some(s),
        args.str_at("expression"@) == Some(s) && text::trimmed(s).len() == 0
            ==> crate::calc::expression_of(args) is None,
        args.str_at("expression"@) is None ==> crate::calc::expression_of(args) is None,
        args.str_at("chat"@) == Some(s) ==> chats::reference_of(args) == text::trimmed(s),
        args.str_at("chat"@) is None ==> chats::reference_of(args).len() == 0,
{
    text_laws::only_blank_texts_vanish(s);
    text_laws::only_blank_texts_vanish(Seq::empty());
}

/// A change of parameters is an object, or nothing at all.
pub proof fn a_change_is_an_object(pairs: Seq<(Seq<char>, Seq<char>)>, s: Seq<char>, b: bool)
    ensures
        introspection::given(JsonView::Obj(pairs)) == Some(pairs),
        introspection::given(JsonView::Null) == Some(Seq::<(Seq<char>, Seq<char>)>::empty()),
        introspection::given(JsonView::Str(s)) is None,
        introspection::given(JsonView::Bool(b)) is None,
{
}

// ---------- membership ----------

/// A file is attached where its identifier is among the files, and some of what is
/// indexed is attached where one of it is. A chat has a run by its identifier.
pub proof fn what_is_there(
    files: Seq<Attachment>,
    indexed: Seq<u128>,
    i: int,
    j: int,
    chat: Chat,
    id: u128,
)
    ensures
        0 <= i < files.len() && 0 <= j < indexed.len() && files[i].id == indexed[j]
            ==> attachment::some_indexed(files, indexed),
        (forall|a: int, b: int|
            0 <= a < files.len() && 0 <= b < indexed.len() ==> (#[trigger] files[a]).id
                != #[trigger] indexed[b]) ==> !attachment::some_indexed(files, indexed),
        0 <= i < chat.runs@.len() && chat.runs@[i].id == id ==> chats::has_run(chat, id),
        (forall|a: int| 0 <= a < chat.runs@.len() ==> (#[trigger] chat.runs@[a]).id != id)
            ==> !chats::has_run(chat, id),
{
    if 0 <= i < files.len() && 0 <= j < indexed.len() && files[i].id == indexed[j] {
        assert(attachment::is_attached(files, indexed[j]));
    }
    if attachment::some_indexed(files, indexed) {
        let b = choose|b: int|
            0 <= b < indexed.len() && attachment::is_attached(files, #[trigger] indexed[b]);
        let a = choose|a: int| 0 <= a < files.len() && (#[trigger] files[a]).id == indexed[b];
        assert(files[a].id == indexed[b]);
    }
}

/// A place is in one of the folders where it is behind one of them.
pub proof fn a_place_is_in_a_folder(
    place: (Seq<char>, Seq<Seq<char>>),
    dirs: Seq<CanonPath>,
    i: int,
)
    ensures
        0 <= i < dirs.len() && fs::below(place, dirs[i]) ==> fs::in_one_of(place, dirs),
        (forall|a: int| 0 <= a < dirs.len() ==> !fs::below(place, #[trigger] dirs[a]))
            ==> !fs::in_one_of(place, dirs),
{
}

/// A message of the folded part is found where it is among the hits, at its first place.
pub proof fn one_message_more_is_matched(folded: Seq<u128>, hits: Seq<u128>, n: int)
    requires
        0 <= n < folded.len(),
    ensures
        history::matched(folded, hits, 0) == Seq::<int>::empty(),
        hits.contains(folded[n]) && (forall|j: int| 0 <= j < n ==> #[trigger] folded[j] != folded[n])
            ==> history::matched(folded, hits, n + 1) == history::matched(folded, hits, n).push(n),
        !hits.contains(folded[n]) || (exists|j: int| 0 <= j < n && #[trigger] folded[j] == folded[n])
            ==> history::matched(folded, hits, n + 1) == history::matched(folded, hits, n),
{
}

// ---------- sentences ----------

/// A token is named by its kind, with what it holds.
pub proof fn tokens_are_named(s: Seq<char>, number: Seq<char>, t: TokenView)
    ensures
        lex::token_name(TokenView::Number(s), number) == "Number("@ + number + ")"@,
        lex::token_name(TokenView::Ident(s), number) == "Ident("@ + lex::quoted(s) + ")"@,
        lex::token_name(TokenView::Plus, number) == "Plus"@,
        lex::token_name(TokenView::Minus, number) == "Minus"@,
        lex::token_name(TokenView::Star, number) == "Star"@,
        lex::token_name(TokenView::Slash, number) == "Slash"@,
        lex::token_name(TokenView::Percent, number) == "Percent"@,
        lex::token_name(TokenView::Caret, number) == "Caret"@,
        lex::token_name(TokenView::LParen, number) == "LParen"@,
        lex::token_name(TokenView::RParen, number) == "RParen"@,
        lex::token_name(TokenView::Comma, number) == "Comma"@,
        lex::found_name(Some(t), number) == "Some("@ + lex::token_name(t, number) + ")"@,
        lex::found_name(None, number) == "None"@,
{
}

/// What is wrong with an expression is said with what it is about.
pub proof fn wrong_expressions_are_explained(
    s: Seq<char>,
    c: char,
    n: nat,
    t: Option<TokenView>,
    number: Seq<char>,
    loc: Locale,
)
    ensures
        lex::error_text(CalcErrorView::BadNumber(s), number, loc) == loc.text1(
            "calc.err.bad_number"@,
            "s"@,
            s,
        ),
        lex::error_text(CalcErrorView::UnknownChar(c), number, loc) == loc.text1(
            "calc.err.unknown_char"@,
            "c"@,
            seq![c],
        ),
        lex::error_text(CalcErrorView::Unexpected(t), number, loc) == loc.text1(
            "calc.err.unexpected_token"@,
            "token"@,
            lex::found_name(t, number),
        ),
        lex::error_text(CalcErrorView::Expected(t), number, loc) == loc.text2(
            "calc.err.expected"@,
            "want"@,
            "RParen"@,
            "found"@,
            lex::found_name(t, number),
        ),
        lex::error_text(CalcErrorView::UnknownConst(s), number, loc) == loc.text1(
            "calc.err.unknown_const"@,
            "name"@,
            s,
        ),
        lex::error_text(CalcErrorView::UnknownFunc(s), number, loc) == loc.text1(
            "calc.err.unknown_func"@,
            "name"@,
            s,
        ),
        lex::error_text(CalcErrorView::NeedsArgs(s), number, loc) == loc.text1(
            "calc.err.needs_args"@,
            "name"@,
            s,
        ),
        lex::error_text(CalcErrorView::ArityOne(s, n), number, loc) == loc.text2(
            "calc.err.arity_one"@,
            "name"@,
            s,
            "n"@,
            text::decimal(n),
        ),
        lex::error_text(CalcErrorView::ArityTwo(s, n), number, loc) == loc.text2(
            "calc.err.arity_two"@,
            "name"@,
            s,
            "n"@,
            text::decimal(n),
        ),
        lex::error_text(CalcErrorView::Empty, number, loc) == loc.text("calc.err.empty"@),
        lex::error_text(CalcErrorView::ExtraTokens, number, loc) == loc.text(
            "calc.err.extra_tokens"@,
        ),
{
}

/// A command without a line says how the line is put in.
pub proof fn a_missing_line_is_told(loc: Locale)
    ensures
        command::not_set_text(CommandSlot::Build, loc) == loc.text2(
            "tool.code.cmd.not_set"@,
            "slot"@,
            "build"@,
            "cmd"@,
            "/project build-cmd"@,
        ),
        command::not_set_text(CommandSlot::Run, loc) == loc.text2(
            "tool.code.cmd.not_set"@,
            "slot"@,
            "run"@,
            "cmd"@,
            "/project run-cmd"@,
        ),
        command::not_set_text(CommandSlot::Test, loc) == loc.text2(
            "tool.code.cmd.not_set"@,
            "slot"@,
            "test"@,
            "cmd"@,
            "/project test-cmd"@,
        ),
{
    reveal_strlit("/project ");
    reveal_strlit("-cmd");
    reveal_strlit("build");
    reveal_strlit("run");
    reveal_strlit("test");
    reveal_strlit("/project build-cmd");
    reveal_strlit("/project run-cmd");
    reveal_strlit("/project test-cmd");
    assert("/project "@ + "build"@ + "-cmd"@ =~= "/project build-cmd"@);
    assert("/project "@ + "run"@ + "-cmd"@ =~= "/project run-cmd"@);
    assert("/project "@ + "test"@ + "-cmd"@ =~= "/project test-cmd"@);
}

/// What was read of a console is what its sections hold.
pub proof fn a_console_is_its_sections(c: Console, st: console::Reading)
    ensures
        c.is_of(st) <==> c.command@ == console::section_text(st.cmd) && c.stdout@
            == console::section_text(st.out) && c.stderr@ == console::section_text(st.err)
            && c.files@ == console::section_text(st.files) && c.exit == st.exit,
{
}

/// A failed fetch says why, with the address, the status or the coding.
pub proof fn failed_fetches_are_explained(s: String, url: Seq<char>, loc: Locale)
    ensures
        fetch::fetch_error_text(FetchError::AddressBlocked, url, loc) == loc.text(
            "tool.fetch_url.err.address_blocked"@,
        ),
        fetch::fetch_error_text(FetchError::Request, url, loc) == loc.text1(
            "tool.fetch_url.err.request"@,
            "url"@,
            url,
        ),
        fetch::fetch_error_text(FetchError::Status(s), url, loc) == loc.text1(
            "tool.fetch_url.err.status"@,
            "status"@,
            s@,
        ),
        fetch::fetch_error_text(FetchError::Compressed(s), url, loc) == loc.text1(
            "tool.fetch_url.err.compressed"@,
            "coding"@,
            s@,
        ),
        fetch::fetch_error_text(FetchError::Read, url, loc) == loc.text1(
            "tool.fetch_url.err.read"@,
            "url"@,
            url,
        ),
        fetch::fetch_error_text(FetchError::NoText, url, loc) == loc.text(
            "tool.fetch_url.err.no_text"@,
        ),
{
}

/// A page goes by its title, and without one by its address; what is attached of it says
/// both, and below that the page.
pub proof fn an_attached_page_says_what_it_is(
    name: Seq<char>,
    url: Seq<char>,
    page: PageView,
    t: Seq<char>,
    focus: Seq<char>,
    body: Seq<char>,
    loc: Locale,
)
    ensures
        page.title == Some(t) ==> fetch::base_name(page, url) == t,
        page.title is None ==> fetch::base_name(page, url) == url,
        fetch::attached_text(name, url, page, loc) == loc.text2(
            "tool.fetch_url.attachment.header"@,
            "name"@,
            name,
            "url"@,
            url,
        ) + "\n\n"@ + page.text,
        fetch::summary_task(url, None, body, loc) == loc.text2(
            "tool.fetch_url.summarize.task"@,
            "url"@,
            url,
            "text"@,
            body,
        ),
        fetch::summary_task(url, Some(focus), body, loc) == loc.text3(
            "tool.fetch_url.summarize.task_focus"@,
            "url"@,
            url,
            "f"@,
            focus,
            "text"@,
            body,
        ),
{
}

/// The files that are not of an address stay as they stand; the case of the address does
/// not matter.
pub proof fn one_file_of_another_page_more(files: Seq<Attachment>, url: Seq<char>, n: int)
    requires
        0 <= n < files.len(),
    ensures
        fetch::of_other_pages(files, url, 0) == Seq::<Attachment>::empty(),
        text::ascii_lowered(files[n].source@) == text::ascii_lowered(url) ==> fetch::of_other_pages(
            files,
            url,
            n + 1,
        ) == fetch::of_other_pages(files, url, n),
        text::ascii_lowered(files[n].source@) != text::ascii_lowered(url) ==> fetch::of_other_pages(
            files,
            url,
            n + 1,
        ) == fetch::of_other_pages(files, url, n).push(files[n]),
{
}

/// When the user last wrote is told in UTC, with how long ago it was.
pub proof fn the_last_message_is_dated(then: Moment, now: Moment, date: Seq<char>, loc: Locale)
    ensures
        crate::times::strftime(then.secs, then.nanos, 0, "%+"@) == Some(date)
            ==> introspection::last_message_text(then, now, loc) == loc.text2(
            "tool.get_last_user_message_time.result"@,
            "time"@,
            date,
            "ago"@,
            introspection::span_text(introspection::elapsed(then, now), loc),
        ),
{
}

/// Notes are listed under how many they are.
pub proof fn notes_are_counted(found: Seq<NoteView>, loc: Locale)
    ensures
        recall::notes_text(Seq::empty(), loc) == loc.text("tool.note_recall.result.empty"@),
        found.len() > 0 ==> recall::notes_text(found, loc) == text::no_right_margin(
            loc.text1("tool.note_recall.result.header"@, "n"@, text::decimal(found.len())) + "\n"@
                + recall::note_rows(found, loc),
        ),
{
}

/// A message of a dialogue is the persona's own where the model speaks it.
pub proof fn own_messages_are_the_models(m: ApiMessage)
    ensures
        dialogue::turn_of(m).own <==> m.role == ApiRole::Assistant,
        dialogue::turn_of(m).text == m.content@,
{
}

// ---------- what is hashed and indexed ----------

/// A length is written in sevens of bits, the lowest first, with the high bit on all but
/// the last; a field is its length and its bytes; and a tool is its name, what it is for
/// and its schema.
pub proof fn what_is_hashed(n: nat, s: Seq<char>, t: McpToolView, rest: Seq<McpToolView>)
    ensures
        n < 128 ==> mcp::length_bytes(n) == seq![n as u8],
        n >= 128 ==> mcp::length_bytes(n) == seq![(128 + n % 128) as u8] + mcp::length_bytes(
            n / 128,
        ),
        mcp::field_bytes(s) == mcp::length_bytes(vstd::utf8::encode_utf8(s).len())
            + vstd::utf8::encode_utf8(s),
        mcp::all_bytes(Seq::empty()) == Seq::<u8>::empty(),
        mcp::all_bytes(seq![t] + rest) == mcp::field_bytes(t.name) + mcp::field_bytes(t.description)
            + mcp::field_bytes(t.input_schema) + mcp::all_bytes(rest),
{
    let all = seq![t] + rest;
    assert(all.drop_first() =~= rest);
    assert(mcp::all_bytes(all) =~= mcp::field_bytes(t.name) + mcp::field_bytes(t.description)
        + mcp::field_bytes(t.input_schema) + mcp::all_bytes(rest));
}

/// The tools of a server are hashed in the order of their names.
pub proof fn tools_are_hashed_by_name(tools: Seq<McpToolView>, i: int, j: int)
    requires
        0 <= i < j < tools.len(),
    ensures
        mcp::by_name(tools).len() == tools.len(),
        text::not_after(mcp::by_name(tools)[i].name, mcp::by_name(tools)[j].name),
        tools.contains(mcp::by_name(tools)[i]),
{
    let names = mcp::names_in(tools);
    texts_rise(names, tools.len() as int, i, j);
    let at = order::rising(names, tools.len() as int);
    assert(names[at[i]] == tools[at[i]].name && names[at[j]] == tools[at[j]].name);
    assert(tools[at[i]] == mcp::by_name(tools)[i]);
}

/// Nothing is indexed of a file with a zero byte, and of any other its lines from the
/// first one on.
pub proof fn what_is_indexed(path: Seq<char>, bytes: Seq<u8>, i: int)
    ensures
        0 <= i < bytes.len() && bytes[i] == 0 ==> code_search_probe::indexed_windows(
            path,
            bytes,
        ).len() == 0,
        (forall|k: int| 0 <= k < bytes.len() ==> #[trigger] bytes[k] != 0)
            ==> code_search_probe::indexed_windows(path, bytes) == code_search_probe::windows_from(
            path,
            text::lines_of(
                text::replaced(crate::code::file::utf8_lossy(bytes), "\r\n"@, "\n"@),
            ),
            0,
        ),
{
    if 0 <= i < bytes.len() && bytes[i] == 0 {
        assert(bytes.contains(bytes[i]));
    }
    if bytes.contains(0) {
        let k = choose|k: int| 0 <= k < bytes.len() && bytes[k] == 0;
        assert(bytes[k] == 0);
    }
}

// ---------- lists of tools ----------

/// The lists of the registry have an entry for each tool, each in its place.
pub proof fn lists_have_each_tool_in_its_place(
    s: Seq<ToolSchema>,
    e: Seq<Entry>,
    c: Seq<ToolInfo>,
    provider: Option<sampling::CloudProvider>,
    loc: Locale,
    i: int,
)
    ensures
        registry::are_schemas_of(s, e, loc) ==> s.len() == e.len() && (0 <= i < s.len()
            ==> registry::is_schema_of(s[i], e[i], loc)),
        registry::are_rows(e, provider) ==> e.len() == 51 && (0 <= i < 51 ==> registry::is_row(
            e[i],
            i,
            provider,
        )),
        registry::is_catalog(c) ==> c.len() == 51 && (0 <= i < 51 ==> registry::is_info_of_row(
            c[i],
            i,
        )),
{
}

/// Nothing is set at first, and a value is that of its parameter.
pub proof fn nothing_is_set_at_first(i: int, values: Seq<Option<String>>, s: String)
    ensures
        sampling::unset().len() == 31,
        0 <= i < 31 ==> sampling::unset()[i] is None,
        0 <= i < values.len() && values[i] == Some(s) ==> sampling::value_at(values, i) == Some(s@),
        0 <= i < values.len() && values[i] is None ==> sampling::value_at(values, i) is None,
        i < 0 || i >= values.len() ==> sampling::value_at(values, i) is None,
{
}

// ---------- small parts ----------

/// A file is marked by the three bytes at its beginning, and its text is what follows
/// them.
pub proof fn the_mark_is_three_bytes(bytes: Seq<u8>, rest: Seq<u8>)
    ensures
        file::has_mark(seq![0xEFu8, 0xBBu8, 0xBFu8] + rest),
        file::unmarked(seq![0xEFu8, 0xBBu8, 0xBFu8] + rest) == rest,
        bytes.len() < 3 || bytes[0] != 0xEF || bytes[1] != 0xBB || bytes[2] != 0xBF
            ==> !file::has_mark(bytes) && file::unmarked(bytes) == bytes,
{
    let marked = seq![0xEFu8, 0xBBu8, 0xBFu8] + rest;
    assert(marked.skip(3) =~= rest);
}

/// A fragment is kept where its file is attached, in the order of the hits.
pub proof fn one_fragment_more(
    files: Seq<Attachment>,
    hits: Seq<AttachmentHit>,
    n: int,
    i: int,
)
    requires
        0 <= n < hits.len(),
    ensures
        attachment::kept(files, hits, 0) == Seq::<int>::empty(),
        0 <= i < files.len() && files[i].id == hits[n].attachment_id ==> attachment::kept(
            files,
            hits,
            n + 1,
        ) == attachment::kept(files, hits, n).push(n),
        (forall|k: int| 0 <= k < files.len() ==> (#[trigger] files[k]).id != hits[n].attachment_id)
            ==> attachment::kept(files, hits, n + 1) == attachment::kept(files, hits, n),
{
}

/// A conversation is dated by the day of its last activity where it took place.
pub proof fn conversations_are_dated(at: Moment, day: Seq<char>)
    ensures
        crate::times::strftime(at.secs, at.nanos, at.offset, "%Y-%m-%d"@) == Some(day)
            ==> chats::day_of(at) == day,
{
}

/// A section is its lines, one on each line of its text, without the blank ones at its
/// end. A result is a console's where nothing stood outside of its sections and something
/// in them.
pub proof fn sections_have_no_blank_end(
    lines: Seq<Seq<char>>,
    last: Seq<char>,
    st: console::Reading,
)
    ensures
        text::trimmed(last).len() == 0 ==> console::section_text(lines.push(last))
            == console::section_text(lines),
        text::trimmed(last).len() > 0 ==> console::section_text(lines.push(last)) == text::joined(
            lines.push(last),
            "\n"@,
        ),
        console::section_text(Seq::empty()).len() == 0,
        console::is_console(st) <==> st.ok && !(st.cmd.len() == 0 && st.out.len() == 0
            && st.err.len() == 0 && st.files.len() == 0 && st.exit is None),
{
    text_laws::only_blank_texts_vanish(last);
    assert(lines.push(last).drop_last() =~= lines);
}

/// After the first persona the second one speaks, and after the second the first; what the
/// director says does not count.
pub proof fn the_two_take_turns(transcript: Seq<Message>, m: Message)
    ensures
        m.role == MessageRole::Assistant ==> dialogue::next_is_a(transcript.push(m)) == Some(false),
        m.role == MessageRole::User ==> dialogue::next_is_a(transcript.push(m)) == Some(true),
        m.role == MessageRole::System ==> dialogue::next_is_a(transcript.push(m))
            == dialogue::next_is_a(transcript),
        dialogue::next_is_a(Seq::empty()) is None,
{
    assert(transcript.push(m).drop_last() =~= transcript);
}

/// A name that is taken gets the address behind it, as often as is needed.
pub proof fn one_address_more(s: Seq<char>, url: Seq<char>, k: int)
    requires
        k >= 0,
    ensures
        fetch::with_address(s, url, 0) == s,
        fetch::with_address(s, url, k + 1) == fetch::with_address(s, url, k) + " — "@ + url,
{
}

/// A summary takes as many tokens as the chat allows, up to its own bound.
pub proof fn summaries_keep_to_the_chat(cfg: Seq<Option<Seq<char>>>, t: Seq<char>, m: u64)
    ensures
        cfg[24] is None ==> fetch::summary_cap(cfg) == fetch::SUMMARY_MAX_TOKENS,
        cfg[24] == Some(t) && text::uint_of(t) is None ==> fetch::summary_cap(cfg)
            == fetch::SUMMARY_MAX_TOKENS,
        cfg[24] == Some(t) && text::uint_of(t) == Some(m) ==> fetch::summary_cap(cfg) <= m
            && fetch::summary_cap(cfg) <= fetch::SUMMARY_MAX_TOKENS && (fetch::summary_cap(cfg) == m
            || fetch::summary_cap(cfg) == fetch::SUMMARY_MAX_TOKENS),
{
}

/// A link goes from the one that it was made at to the other, whichever of the two it is
/// seen from.
pub proof fn a_link_has_its_direction(e: Edge)
    ensures
        e.near.outgoing ==> notes::self_notes::link_of(e) == (
            e.at,
            e.near.note.id,
            e.near.relation,
        ),
        !e.near.outgoing ==> notes::self_notes::link_of(e) == (
            e.near.note.id,
            e.at,
            e.near.relation,
        ),
{
}

/// The tag of an observation is not shown among the others: a mark stands for it.
pub proof fn one_shown_tag_more(tags: Seq<Seq<char>>, t: Seq<char>, n: NoteView, loc: Locale)
    ensures
        recall::shown_tags(Seq::empty()) == Seq::<Seq<char>>::empty(),
        t == "@self"@ ==> recall::shown_tags(tags.push(t)) == recall::shown_tags(tags),
        t != "@self"@ ==> recall::shown_tags(tags.push(t)) == recall::shown_tags(tags).push(t),
        n.is_self() ==> recall::self_mark(n, loc) == loc.text("notes.mark.self"@) + " "@,
        !n.is_self() ==> recall::self_mark(n, loc).len() == 0,
{
    assert(tags.push(t).drop_last() =~= tags);
}

/// The first notes are kept, up to so many.
pub proof fn the_first_notes_are_kept(all: Seq<NoteView>, n: int, i: int)
    requires
        n >= 0,
    ensures
        ({
            let kept = recall::first_notes(all, n);
            &&& kept.len() <= n && kept.len() <= all.len()
            &&& kept.len() == n || kept.len() == all.len()
            &&& 0 <= i < kept.len() ==> kept[i] == all[i]
        }),
{
}

/// A list fits where each of its items is a string, the first among them; a member fits
/// where its parameter takes the value, and one that is no parameter fits.
pub proof fn members_fit_by_their_parameter(
    items: Seq<Seq<char>>,
    i: int,
    s: Seq<char>,
    m: (Seq<char>, Seq<char>),
    k: int,
    v: JsonView,
)
    ensures
        sampling::all_strings(Seq::empty()),
        0 <= i < items.len() && json::json_of(items[i]) is None ==> !sampling::all_strings(items),
        sampling::all_strings(items.push(s)) <==> sampling::all_strings(items) && (json::json_of(s)
            matches Some(JsonView::Str(_))),
        0 <= k < 31 && m.0 == sampling::FIELDS@[k].0@ && (forall|j: int|
            0 <= j < k ==> (#[trigger] sampling::FIELDS@[j]).0@ != m.0) && json::json_of(m.1)
            == Some(v) ==> (sampling::member_fits(m) <==> sampling::fits(
            sampling::FIELDS@[k].1,
            v,
        )),
        0 <= k < 31 && m.0 == sampling::FIELDS@[k].0@ && json::json_of(m.1) is None
            ==> !sampling::member_fits(m),
        (forall|j: int| 0 <= j < 31 ==> (#[trigger] sampling::FIELDS@[j]).0@ != m.0)
            ==> sampling::member_fits(m),
{
    let more = items.push(s);
    if sampling::all_strings(more) {
        assert forall|j: int| 0 <= j < items.len() implies sampling::is_string(
            #[trigger] items[j],
        ) by {
            assert(sampling::is_string(more[j]));
        }
        assert(sampling::is_string(more[items.len() as int]));
    }
    if sampling::all_strings(items) && sampling::is_string(s) {
        assert forall|j: int| 0 <= j < more.len() implies sampling::is_string(
            #[trigger] more[j],
        ) by {
            if j < items.len() {
                assert(sampling::is_string(items[j]));
            }
        }
    }
    if 0 <= i < items.len() && sampling::all_strings(items) {
        assert(sampling::is_string(items[i]));
    }
    a_parameter_is_found(m.0, 0);
}

proof fn a_parameter_is_found(name: Seq<char>, from: int)
    requires
        0 <= from <= 31,
    ensures
        ({
            let at = sampling::field_from(name, from);
            &&& at == -1 || from <= at < 31 && sampling::FIELDS@[at].0@ == name
            &&& forall|j: int|
                from <= j < (if at == -1 {
                    31
                } else {
                    at
                }) ==> (#[trigger] sampling::FIELDS@[j]).0@ != name
        }),
    decreases 31 - from,
{
    if from < 31 && sampling::FIELDS@[from].0@ != name {
        a_parameter_is_found(name, from + 1);
    }
}

} // verus!
