//! What the tools of the registry are, and which of them a turn gets, said of their names
//! and of the switches.

use vstd::prelude::*;
use crate::code;
use crate::code::{CodeTool, CommandSlot, Workspace, WorkspaceCommands};
use crate::control;
use crate::engine_laws;
use crate::i18n::Locale;
use crate::meta::{ToolGate, ToolGroup, ToolInfo, GROUPS};
use crate::outcome::ToolOutcome;
use crate::registry;
use crate::registry::{ChatState, Entry, Source, Switch, Switches, Words};
use crate::sampling;
use crate::sampling::{CloudProvider, FieldKind};
use crate::schema;
use crate::schema::{Kind, ParamView, Parameters, ToolSchema};
use crate::text;
use crate::tool_order;

verus! {

// ---------- the table ----------

/// Only the tools that write files, run a project or run code are dangerous.
pub proof fn what_the_user_may_be_asked_about(i: int)
    requires
        0 <= i < 51,
    ensures
        registry::TOOLS@[i].5 ==> ({
            let name = registry::TOOLS@[i].0@;
            name == "code_build"@
                || name == "code_edit"@
                || name == "code_run"@
                || name == "code_test"@
                || name == "code_write"@
                || name == "fs_write"@
                || name == "python_exec"@
        }),
        registry::TOOLS@[registry::row_of("code_build"@, 51)].5,
        registry::TOOLS@[registry::row_of("code_edit"@, 51)].5,
        registry::TOOLS@[registry::row_of("code_run"@, 51)].5,
        registry::TOOLS@[registry::row_of("code_test"@, 51)].5,
        registry::TOOLS@[registry::row_of("code_write"@, 51)].5,
        registry::TOOLS@[registry::row_of("fs_write"@, 51)].5,
        registry::TOOLS@[registry::row_of("python_exec"@, 51)].5,
{
    tool_order::a_row_is_found(7, 51);
    tool_order::a_row_is_found(8, 51);
    tool_order::a_row_is_found(12, 51);
    tool_order::a_row_is_found(13, 51);
    tool_order::a_row_is_found(14, 51);
    tool_order::a_row_is_found(20, 51);
    tool_order::a_row_is_found(37, 51);
}

/// A profile has every tool from the start but those of the self-model, those that steer the
/// conversation and those that read other conversations.
pub proof fn what_a_profile_does_not_have(i: int)
    requires
        0 <= i < 51,
    ensures
        !registry::TOOLS@[i].4 ==> ({
            let name = registry::TOOLS@[i].0@;
            name == "add_insight"@
                || name == "chat_read"@
                || name == "chat_search"@
                || name == "get_self_model"@
                || name == "reflect"@
                || name == "rewrite_current_message"@
                || name == "send_followup_message"@
                || name == "update_self_model"@
                || name == "update_user_model"@
        }),
        !registry::TOOLS@[registry::row_of("add_insight"@, 51)].4,
        !registry::TOOLS@[registry::row_of("chat_read"@, 51)].4,
        !registry::TOOLS@[registry::row_of("chat_search"@, 51)].4,
        !registry::TOOLS@[registry::row_of("get_self_model"@, 51)].4,
        !registry::TOOLS@[registry::row_of("reflect"@, 51)].4,
        !registry::TOOLS@[registry::row_of("rewrite_current_message"@, 51)].4,
        !registry::TOOLS@[registry::row_of("send_followup_message"@, 51)].4,
        !registry::TOOLS@[registry::row_of("update_self_model"@, 51)].4,
        !registry::TOOLS@[registry::row_of("update_user_model"@, 51)].4,
{
    tool_order::a_row_is_found(0, 51);
    tool_order::a_row_is_found(5, 51);
    tool_order::a_row_is_found(6, 51);
    tool_order::a_row_is_found(25, 51);
    tool_order::a_row_is_found(40, 51);
    tool_order::a_row_is_found(41, 51);
    tool_order::a_row_is_found(43, 51);
    tool_order::a_row_is_found(47, 51);
    tool_order::a_row_is_found(48, 51);
}

/// Every tool uses up a round but those of a project.
pub proof fn what_uses_no_round(i: int)
    requires
        0 <= i < 51,
    ensures
        !registry::TOOLS@[i].6 ==> ({
            let name = registry::TOOLS@[i].0@;
            name == "code_build"@
                || name == "code_edit"@
                || name == "code_grep"@
                || name == "code_list"@
                || name == "code_read"@
                || name == "code_run"@
                || name == "code_test"@
                || name == "code_write"@
        }),
        !registry::TOOLS@[registry::row_of("code_build"@, 51)].6,
        !registry::TOOLS@[registry::row_of("code_edit"@, 51)].6,
        !registry::TOOLS@[registry::row_of("code_grep"@, 51)].6,
        !registry::TOOLS@[registry::row_of("code_list"@, 51)].6,
        !registry::TOOLS@[registry::row_of("code_read"@, 51)].6,
        !registry::TOOLS@[registry::row_of("code_run"@, 51)].6,
        !registry::TOOLS@[registry::row_of("code_test"@, 51)].6,
        !registry::TOOLS@[registry::row_of("code_write"@, 51)].6,
{
    tool_order::a_row_is_found(7, 51);
    tool_order::a_row_is_found(8, 51);
    tool_order::a_row_is_found(9, 51);
    tool_order::a_row_is_found(10, 51);
    tool_order::a_row_is_found(11, 51);
    tool_order::a_row_is_found(12, 51);
    tool_order::a_row_is_found(13, 51);
    tool_order::a_row_is_found(14, 51);
}

/// Only tools that read are run side by side.
pub proof fn what_runs_side_by_side(i: int)
    requires
        0 <= i < 51,
    ensures
        registry::TOOLS@[i].7 ==> ({
            let name = registry::TOOLS@[i].0@;
            name == "chat_read"@
                || name == "chat_search"@
                || name == "fetch_url"@
                || name == "fs_list"@
                || name == "fs_read"@
                || name == "history_read"@
                || name == "history_search"@
        }),
        registry::TOOLS@[registry::row_of("chat_read"@, 51)].7,
        registry::TOOLS@[registry::row_of("chat_search"@, 51)].7,
        registry::TOOLS@[registry::row_of("fetch_url"@, 51)].7,
        registry::TOOLS@[registry::row_of("fs_list"@, 51)].7,
        registry::TOOLS@[registry::row_of("fs_read"@, 51)].7,
        registry::TOOLS@[registry::row_of("history_read"@, 51)].7,
        registry::TOOLS@[registry::row_of("history_search"@, 51)].7,
{
    tool_order::a_row_is_found(5, 51);
    tool_order::a_row_is_found(6, 51);
    tool_order::a_row_is_found(17, 51);
    tool_order::a_row_is_found(18, 51);
    tool_order::a_row_is_found(19, 51);
    tool_order::a_row_is_found(27, 51);
    tool_order::a_row_is_found(28, 51);
}

// ---------- switches ----------

/// Each tool with a switch passes exactly where that switch is on.
pub proof fn each_switch_holds_its_own_tools(on: Switches, provider: Option<CloudProvider>)
    ensures
        registry::passes("fetch_url"@, on, provider) == on.web,
        registry::passes("web_search"@, on, provider) == on.web,
        registry::passes("youtube_watch"@, on, provider) == on.web,
        registry::passes("python_exec"@, on, provider) == on.python,
        registry::passes("fs_list"@, on, provider) == on.fs,
        registry::passes("fs_read"@, on, provider) == on.fs,
        registry::passes("fs_write"@, on, provider) == on.fs,
        registry::passes("start_dialogue"@, on, provider) == on.background,
{
    reveal_strlit("get_sampling");
    reveal_strlit("set_sampling");
    reveal_strlit("mcp__");
    tool_order::a_row_is_found(17, 51);
    reveal_strlit("fetch_url");
    tool_order::a_row_is_found(49, 51);
    reveal_strlit("web_search");
    tool_order::a_row_is_found(50, 51);
    reveal_strlit("youtube_watch");
    tool_order::a_row_is_found(37, 51);
    reveal_strlit("python_exec");
    tool_order::a_row_is_found(18, 51);
    reveal_strlit("fs_list");
    tool_order::a_row_is_found(19, 51);
    reveal_strlit("fs_read");
    tool_order::a_row_is_found(20, 51);
    reveal_strlit("fs_write");
    tool_order::a_row_is_found(46, 51);
    reveal_strlit("start_dialogue");
    assert("mcp__"@[0] == 'm');
    assert("get_sampling"@[0] == 'g' && "set_sampling"@[0] == 's' && "set_sampling"@[1] == 'e');
    assert forall|id: Seq<char>| #[trigger] text::stands_at(id, "mcp__"@, 0) implies id[0]
        == 'm' by {
        assert(id.subrange(0, 5)[0] == id[0]);
    }
    assert("start_dialogue"@[1] == 't');
}

/// The tools of plugin servers pass by their prefix, the two sampling tools by whether
/// the engine takes a parameter, and any other tool that is not in the table passes.
pub proof fn what_passes_by_its_name(
    id: Seq<char>,
    rest: Seq<char>,
    on: Switches,
    provider: Option<CloudProvider>,
)
    ensures
        registry::passes("mcp__"@ + rest, on, provider) == on.mcp,
        registry::passes("get_sampling"@, on, provider) == registry::sampling_available(provider),
        registry::passes("set_sampling"@, on, provider) == registry::sampling_available(provider),
        id != "get_sampling"@ && id != "set_sampling"@ && !text::stands_at(id, "mcp__"@, 0) && (
        forall|i: int| 0 <= i < 51 ==> (#[trigger] registry::TOOLS@[i]).0@ != id)
            ==> registry::passes(id, on, provider),
        registry::sampling_available(provider),
{
    reveal_strlit("get_sampling");
    reveal_strlit("set_sampling");
    reveal_strlit("mcp__");
    let m = "mcp__"@ + rest;
    assert(m.subrange(0, 5) =~= "mcp__"@);
    assert(m[0] == 'm' && "get_sampling"@[0] == 'g' && "set_sampling"@[0] == 's');
    no_row_of(id, 51);
    // Every engine takes `max_tokens`.
    engine_laws::the_parameters();
    engine_laws::each_engine_takes_its_own(shared_field());
    assert(sampling::FIELDS@[24].0@ == shared_field());
    assert(sampling::is_supported(provider, sampling::FIELDS@[24].0@));
    names_only_grow(provider, 25, 31);
}

spec fn shared_field() -> Seq<char> {
    "max_tokens"@
}

proof fn names_only_grow(provider: Option<CloudProvider>, m: int, n: int)
    requires
        0 <= m <= n,
    ensures
        sampling::supported_names(provider, m).len() <= sampling::supported_names(provider, n).len(),
    decreases n,
{
    if m < n {
        names_only_grow(provider, m, n - 1);
    }
}

proof fn no_row_of(id: Seq<char>, n: int)
    requires
        0 <= n <= 51,
    ensures
        registry::row_of(id, n) >= 0 ==> exists|i: int|
            0 <= i < 51 && (#[trigger] registry::TOOLS@[i]).0@ == id,
    decreases n,
{
    if n > 0 {
        no_row_of(id, n - 1);
        if registry::TOOLS@[n - 1].0@ == id {
            assert(registry::TOOLS@[n - 1].0@ == id);
        }
    }
}

/// The tools that a model gets stand in the order in which they are enabled.
pub proof fn one_tool_more_is_judged(
    enabled: Seq<Seq<char>>,
    on: Switches,
    provider: Option<CloudProvider>,
    chat: ChatState,
    n: int,
)
    requires
        0 <= n < enabled.len(),
    ensures
        registry::passing(enabled, on, provider, 0) == Seq::<Seq<char>>::empty(),
        registry::passes(enabled[n], on, provider) ==> registry::passing(
            enabled,
            on,
            provider,
            n + 1,
        ) == registry::passing(enabled, on, provider, n).push(enabled[n]),
        !registry::passes(enabled[n], on, provider) ==> registry::passing(
            enabled,
            on,
            provider,
            n + 1,
        ) == registry::passing(enabled, on, provider, n),
        registry::usable(enabled, on, provider, chat, 0) == Seq::<Seq<char>>::empty(),
        registry::passes(enabled[n], on, provider) && registry::has_matter(enabled[n], chat)
            ==> registry::usable(enabled, on, provider, chat, n + 1) == registry::usable(
            enabled,
            on,
            provider,
            chat,
            n,
        ).push(enabled[n]),
        !registry::passes(enabled[n], on, provider) || !registry::has_matter(enabled[n], chat)
            ==> registry::usable(enabled, on, provider, chat, n + 1) == registry::usable(
            enabled,
            on,
            provider,
            chat,
            n,
        ),
{
}

// ---------- what a chat has ----------

/// The five tools that look into a project or change it need the project, and a command
/// needs its own line besides; the two that read the folded history need such a part. Any
/// other tool needs nothing of the chat.
pub proof fn each_tool_needs_its_own(id: Seq<char>, chat: ChatState)
    ensures
        registry::has_matter("code_list"@, chat) == chat.attached,
        registry::has_matter("code_read"@, chat) == chat.attached,
        registry::has_matter("code_grep"@, chat) == chat.attached,
        registry::has_matter("code_edit"@, chat) == chat.attached,
        registry::has_matter("code_write"@, chat) == chat.attached,
        registry::has_matter("code_build"@, chat) == (chat.attached && chat.commands.build),
        registry::has_matter("code_run"@, chat) == (chat.attached && chat.commands.run),
        registry::has_matter("code_test"@, chat) == (chat.attached && chat.commands.test),
        registry::has_matter("history_read"@, chat) == chat.folded,
        registry::has_matter("history_search"@, chat) == chat.folded,
        !code::in_family(id) && id != "history_read"@ && id != "history_search"@
            ==> registry::has_matter(id, chat),
{
    reveal_strlit("code_list");
    reveal_strlit("code_read");
    reveal_strlit("code_grep");
    reveal_strlit("code_edit");
    reveal_strlit("code_write");
    reveal_strlit("code_build");
    reveal_strlit("code_run");
    reveal_strlit("code_test");
    reveal_strlit("history_read");
    reveal_strlit("history_search");
    a_code_tool_needs_a_project(CodeTool::List, chat);
    a_code_tool_needs_a_project(CodeTool::Read, chat);
    a_code_tool_needs_a_project(CodeTool::Grep, chat);
    a_code_tool_needs_a_project(CodeTool::Edit, chat);
    a_code_tool_needs_a_project(CodeTool::Write, chat);
    a_code_tool_needs_a_project(CodeTool::Command(CommandSlot::Build), chat);
    a_code_tool_needs_a_project(CodeTool::Command(CommandSlot::Run), chat);
    a_code_tool_needs_a_project(CodeTool::Command(CommandSlot::Test), chat);
    assert("history_read"@[0] == 'h' && "history_search"@[0] == 'h');
    assert("code_list"@[0] == 'c' && "code_read"@[0] == 'c' && "code_grep"@[0] == 'c'
        && "code_edit"@[0] == 'c' && "code_write"@[0] == 'c' && "code_build"@[0] == 'c'
        && "code_run"@[0] == 'c' && "code_test"@[0] == 'c');
    assert(!code::in_family("history_read"@) && !code::in_family("history_search"@)) by {
        let ids = code::WORKSPACE_TOOL_IDS@;
        assert(ids[0]@[0] == 'c' && ids[1]@[0] == 'c' && ids[2]@[0] == 'c' && ids[3]@[0] == 'c'
            && ids[4]@[0] == 'c' && ids[5]@[0] == 'c' && ids[6]@[0] == 'c' && ids[7]@[0] == 'c');
    }
}

proof fn a_code_tool_needs_a_project(t: CodeTool, chat: ChatState)
    ensures
        code::is_offered(t.id_spec(), chat.attached, chat.commands) == Some(
            match t {
                CodeTool::Command(slot) => chat.attached && chat.commands.filled(slot),
                _ => chat.attached,
            },
        ),
{
    let id = t.id_spec();
    code::the_family_is_the_list(t, t);
    assert forall|slot: CommandSlot| #[trigger]
        CodeTool::Command(slot).id_spec() == id implies t == CodeTool::Command(slot) by {
        code::the_family_is_the_list(CodeTool::Command(slot), t);
    }
    if let CodeTool::Command(slot) = t {
        assert(CodeTool::Command(slot).id_spec() == id);
    }
}

/// The tools of a project by their names.
pub proof fn the_tools_of_a_project(ws: Workspace, on: WorkspaceCommands)
    ensures
        CodeTool::List.id_spec() == "code_list"@,
        CodeTool::Read.id_spec() == "code_read"@,
        CodeTool::Grep.id_spec() == "code_grep"@,
        CodeTool::Edit.id_spec() == "code_edit"@,
        CodeTool::Write.id_spec() == "code_write"@,
        CodeTool::Command(CommandSlot::Build).id_spec() == "code_build"@,
        CodeTool::Command(CommandSlot::Run).id_spec() == "code_run"@,
        CodeTool::Command(CommandSlot::Test).id_spec() == "code_test"@,
        CommandSlot::Build.key_spec() == "build"@,
        CommandSlot::Run.key_spec() == "run"@,
        CommandSlot::Test.key_spec() == "test"@,
        ws.line(CommandSlot::Build) == ws.build,
        ws.line(CommandSlot::Run) == ws.run,
        ws.line(CommandSlot::Test) == ws.test,
        on.filled(CommandSlot::Build) == on.build,
        on.filled(CommandSlot::Run) == on.run,
        on.filled(CommandSlot::Test) == on.test,
        !CodeTool::List.is_dangerous() && !CodeTool::Read.is_dangerous()
            && !CodeTool::Grep.is_dangerous(),
        CodeTool::Edit.is_dangerous() && CodeTool::Write.is_dangerous(),
        CodeTool::Command(CommandSlot::Build).is_dangerous() && CodeTool::Command(
            CommandSlot::Run,
        ).is_dangerous() && CodeTool::Command(CommandSlot::Test).is_dangerous(),
{
}

// ---------- the registry ----------

/// A tool is found by its name, and nothing is found by a name that no tool has.
pub proof fn a_tool_is_found_by_its_name(entries: Seq<Entry>, i: int, id: Seq<char>)
    requires
        registry::in_order(entries),
    ensures
        0 <= i < entries.len() ==> registry::lookup(entries, entries[i].id@) == Some(entries[i]),
        (forall|k: int| 0 <= k < entries.len() ==> (#[trigger] entries[k]).id@ != id)
            ==> registry::lookup(entries, id) is None,
{
    if 0 <= i < entries.len() {
        let name = entries[i].id@;
        assert(registry::has_id(entries, name));
        let k = choose|k: int| 0 <= k < entries.len() && (#[trigger] entries[k]).id@ == name;
        if k < i {
            assert(entries[k].id@ != entries[i].id@);
        } else if i < k {
            assert(entries[i].id@ != entries[k].id@);
        }
    }
}

/// The tools that an engine is told of are those of the names that are known, in the
/// order of the names.
pub proof fn one_name_more(entries: Seq<Entry>, names: Seq<Seq<char>>, n: int)
    requires
        0 <= n < names.len(),
    ensures
        registry::known(entries, names, 0) == Seq::<Entry>::empty(),
        registry::lookup(entries, names[n]) is None ==> registry::known(entries, names, n + 1)
            == registry::known(entries, names, n),
        registry::lookup(entries, names[n]) is Some ==> registry::known(entries, names, n + 1)
            == registry::known(entries, names, n).push(registry::lookup(entries, names[n])->0),
{
}

/// The names of the table are listed in its order.
pub proof fn one_row_more_is_listed(n: int)
    requires
        0 <= n < 51,
    ensures
        registry::listed(false, 0) == Seq::<Seq<char>>::empty(),
        registry::listed(true, 0) == Seq::<Seq<char>>::empty(),
        registry::listed(false, n + 1) == registry::listed(false, n).push(
            registry::TOOLS@[n].0@,
        ),
        registry::TOOLS@[n].4 ==> registry::listed(true, n + 1) == registry::listed(true, n).push(
            registry::TOOLS@[n].0@,
        ),
        !registry::TOOLS@[n].4 ==> registry::listed(true, n + 1) == registry::listed(true, n),
{
}

/// What is told and shown of a tool is what the registry has of it.
pub proof fn a_tool_is_described(e: Entry, info: ToolInfo, s: ToolSchema, loc: Locale)
    ensures
        registry::is_info_of(info, e) ==> info.id@ == e.id@ && info.group == e.group
            && info.label@ == e.label@ && info.gate == e.gate && info.enabled_by_default
            == e.enabled_by_default && info.description is None,
        registry::is_schema_of(s, e, loc) ==> s.name@ == e.id@ && s.description@
            == registry::words_text(e.words, loc),
        registry::is_schema_of(s, e, loc) && e.source is Table ==> (s.parameters matches
            Parameters::Fields(f) && schema::param_views(f@) == schema::fields_of(
            schema::rows_for(e.id@),
            loc,
            96,
        )),
        registry::is_schema_of(s, e, loc) && e.source is Sampling ==> (s.parameters matches
            Parameters::Fields(f) && schema::param_views(f@) == schema::sampling_fields(
            e.source->Sampling_0,
            30,
        )),
        registry::is_schema_of(s, e, loc) && e.source is Given ==> (s.parameters matches
            Parameters::Given(t) && t@ == (e.source->Given_0)@),
{
}

/// What is said of a tool is the text of its key, behind which the two sampling tools say
/// which parameters there are, or what its server says.
pub proof fn what_is_said_of_a_tool(k: String, provider: Option<CloudProvider>, loc: Locale)
    ensures
        registry::words_text(Words::Key(k), loc) == loc.text(k@),
        registry::words_text(Words::Given(k), loc) == k@,
        registry::words_text(Words::Sampling(k, None), loc) == loc.text(k@) + " "@ + loc.text(
            "tool.sampling.scope_all"@,
        ),
        provider is Some ==> registry::words_text(Words::Sampling(k, provider), loc) == loc.text(k@)
            + " "@ + loc.text1(
            "tool.sampling.scope_fields"@,
            "fields"@,
            text::joined(sampling::supported_names(provider, 31), ", "@),
        ),
{
}

/// A tool of our own is what its row says.
pub proof fn a_tool_is_its_row(e: Entry, info: ToolInfo, i: int, provider: Option<CloudProvider>)
    requires
        0 <= i < 51,
    ensures
        ({
            let row = registry::TOOLS@[i];
            let gate = match row.3 {
                Switch::Free => None,
                Switch::Web => Some(ToolGate::Web),
                Switch::Python => Some(ToolGate::Python),
                Switch::Fs => Some(ToolGate::Fs),
                Switch::Background => Some(ToolGate::Background),
            };
            &&& registry::is_row(e, i, provider) ==> {
                &&& e.id@ == row.0@ && e.group == row.1 && e.label@ == row.2@ && e.gate == gate
                &&& e.enabled_by_default == row.4 && e.danger == row.5
                &&& e.counts_toward_round_limit == row.6 && e.concurrent == row.7
                &&& row.0@ == "set_sampling"@ ==> e.source == Source::Sampling(provider)
                &&& row.0@ != "set_sampling"@ ==> e.source is Table
                &&& row.0@ == "set_sampling"@ || row.0@ == "get_sampling"@ ==> (e.words matches
                    Words::Sampling(k, p) && k@ == "tool."@ + row.0@ + ".desc"@ && p == provider)
                &&& row.0@ != "set_sampling"@ && row.0@ != "get_sampling"@ ==> (e.words matches
                    Words::Key(k) && k@ == "tool."@ + row.0@ + ".desc"@)
            }
            &&& registry::is_info_of_row(info, i) ==> {
                &&& info.id@ == row.0@ && info.group == row.1 && info.label@ == row.2@
                &&& info.gate == gate && info.enabled_by_default == row.4
                &&& info.description is None
            }
        }),
{
}

/// The groups stand in the order in which they are shown.
pub proof fn the_groups_are_shown_in_order()
    ensures
        GROUPS@[0].title_text() == "Introspection"@,
        GROUPS@[1].title_text() == "Memory and knowledge"@,
        GROUPS@[2].title_text() == "External world"@,
        GROUPS@[3].title_text() == "Files"@,
        GROUPS@[4].title_text() == "Utilities"@,
        GROUPS@[5].title_text() == "Subagent"@,
        GROUPS@[6].title_text() == "Conversation control"@,
        GROUPS@[7].title_text() == "Self-model"@,
        GROUPS@[8].title_text() == "Plugins (MCP)"@,
        ToolGroup::SelfModel.key_text() == "ui.tool.group.self_model"@,
        ToolGroup::Plugins.key_text() == "ui.tool.group.plugins"@,
        ToolGroup::Files.key_text() == "ui.tool.group.files"@,
        ToolGroup::Memory.key_text() == "ui.tool.group.memory"@,
        ToolGroup::Utils.key_text() == "ui.tool.group.utils"@,
        ToolGroup::Subagent.key_text() == "ui.tool.group.subagent"@,
        ToolGroup::Conversation.key_text() == "ui.tool.group.conversation"@,
        ToolGroup::Introspection.key_text() == "ui.tool.group.introspection"@,
        ToolGroup::ExternalWorld.key_text() == "ui.tool.group.external_world"@,
{
}

// ---------- arguments ----------

/// The fields of a tool are its rows of the table, in the table's order, each with what is
/// said of it where something is.
pub proof fn one_field_more_of_a_tool(tool: Seq<char>, loc: Locale, n: int)
    requires
        0 <= n < 96,
    ensures
        schema::fields_of(tool, loc, 0) == Seq::<ParamView>::empty(),
        ({
            let row = schema::PARAMS@[n];
            let field = ParamView {
                parent: row.1@,
                name: row.2@,
                kind: row.3,
                about: if row.4@.len() == 0 {
                    None
                } else {
                    Some(loc.text(row.4@))
                },
                required: row.5,
            };
            &&& row.0@ == tool ==> schema::fields_of(tool, loc, n + 1) == schema::fields_of(
                tool,
                loc,
                n,
            ).push(field)
            &&& row.0@ != tool ==> schema::fields_of(tool, loc, n + 1) == schema::fields_of(
                tool,
                loc,
                n,
            )
        }),
{
}

/// A dialogue in the background takes what one in the foreground takes; any other tool
/// takes what stands under its own name.
pub proof fn a_tool_takes_what_is_under_its_name(tool: Seq<char>)
    ensures
        schema::rows_for("start_dialogue"@) == "run_dialogue"@,
        tool != "start_dialogue"@ ==> schema::rows_for(tool) == tool,
{
}

/// `set_sampling` takes the parameters of the engine, in the order of the parameters, each
/// of its kind and none of which has to be there.
pub proof fn one_sampling_field_more(provider: Option<CloudProvider>, n: int)
    requires
        0 <= n < 30,
    ensures
        schema::sampling_fields(provider, 0) == Seq::<ParamView>::empty(),
        ({
            let row = sampling::FIELDS@[n];
            let before = schema::sampling_fields(provider, n);
            let now = schema::sampling_fields(provider, n + 1);
            &&& sampling::is_supported(provider, row.0@) ==> {
                &&& now.len() == before.len() + 1
                &&& now.drop_last() == before
                &&& now.last().name == row.0@
                &&& now.last().parent.len() == 0
                &&& now.last().about is None
                &&& !now.last().required
                &&& row.1 == FieldKind::Number ==> now.last().kind == Kind::Number
                &&& row.1 == FieldKind::Integer ==> now.last().kind == Kind::Integer
                &&& row.1 == FieldKind::TextList ==> now.last().kind == Kind::TextList
                &&& row.1 == FieldKind::Flag ==> now.last().kind == Kind::Flag
                &&& row.1 == FieldKind::Effort ==> now.last().kind == Kind::Effort
                &&& row.1 == FieldKind::Verbosity ==> now.last().kind == Kind::Verbosity
            }
            &&& !sampling::is_supported(provider, row.0@) ==> now == before
        }),
{
    let now = schema::sampling_fields(provider, n + 1);
    if sampling::is_supported(provider, sampling::FIELDS@[n].0@) {
        assert(now.drop_last() =~= schema::sampling_fields(provider, n));
    }
}

/// The five tools of a dialogue's director, in their order. Whom a note goes to is said by
/// the names of the two, and every other field as in the table.
pub proof fn the_tools_of_a_director(
    s: ToolSchema,
    i: int,
    a: Seq<char>,
    b: Seq<char>,
    loc: Locale,
    p: ParamView,
)
    ensures
        schema::VERDICTS@[0].0@ == "dialogue_continue"@,
        schema::VERDICTS@[1].0@ == "dialogue_stop"@,
        schema::VERDICTS@[2].0@ == "dialogue_note"@,
        schema::VERDICTS@[3].0@ == "dialogue_retry"@,
        schema::VERDICTS@[4].0@ == "dialogue_rewrite"@,
        0 <= i < 5 && schema::is_verdict_schema(s, i, a, b, loc) ==> s.name@
            == schema::VERDICTS@[i].0@ && s.description@ == loc.text(schema::VERDICTS@[i].1@) && (
        s.parameters matches Parameters::Fields(f) && f@.len() == schema::fields_of(
            schema::rows_for(schema::VERDICTS@[i].0@),
            loc,
            96,
        ).len()),
        p.kind == Kind::NoteTarget ==> schema::verdict_param(p, a, b, loc).about == Some(
            loc.text2("tool.run_dialogue.verdict.note_to"@, "a"@, a, "b"@, b),
        ),
        p.kind != Kind::NoteTarget ==> schema::verdict_param(p, a, b, loc) == p,
        schema::verdict_param(p, a, b, loc).name == p.name && schema::verdict_param(
            p,
            a,
            b,
            loc,
        ).kind == p.kind && schema::verdict_param(p, a, b, loc).required == p.required
            && schema::verdict_param(p, a, b, loc).parent == p.parent,
{
    if 0 <= i < 5 && schema::is_verdict_schema(s, i, a, b, loc) {
        if let Parameters::Fields(f) = s.parameters {
            assert(schema::param_views(f@).len() == f@.len());
        }
    }
}

// ---------- answers ----------

/// What a call says is its whole outcome: it changes nothing of the chat and brings no
/// picture, and only where it says so was something stored.
pub proof fn what_is_said_is_all(o: ToolOutcome, t: Seq<char>)
    ensures
        o.says(t) <==> o.result@ == t && o.effects@.len() == 0 && !o.wrote && o.prefill is None
            && o.images@.len() == 0,
        o.says_wrote(t) <==> o.result@ == t && o.effects@.len() == 0 && o.wrote && o.prefill
            is None && o.images@.len() == 0,
{
}

/// The two tools that steer the conversation are answered with their own permission.
pub proof fn each_steering_tool_has_its_permission(name: Seq<char>, loc: Locale)
    ensures
        control::is_control("send_followup_message"@),
        control::is_control("rewrite_current_message"@),
        control::is_control(name) ==> name == "send_followup_message"@ || name
            == "rewrite_current_message"@,
        control::permission("send_followup_message"@, loc) == loc.text(
            "control.permission.followup"@,
        ),
        control::permission("rewrite_current_message"@, loc) == loc.text(
            "control.permission.rewrite"@,
        ),
        !control::is_control(name) ==> control::permission(name, loc).len() == 0,
{
    reveal_strlit("send_followup_message");
    reveal_strlit("rewrite_current_message");
    assert("send_followup_message"@.len() != "rewrite_current_message"@.len());
}

} // verus!
