//! The registry of tools: which there are, what is said of each, and which of them a
//! profile's model gets.

use vstd::prelude::*;
use crate::code;
use crate::code::WorkspaceCommands;
use crate::control;
use crate::history;
use crate::i18n::Locale;
use crate::introspection;
use crate::introspection::{GET_SAMPLING_ID, SET_SAMPLING_ID};
use crate::mcp::{McpTool, MCP_TOOL_PREFIX};
use crate::meta::{ToolGate, ToolGroup, ToolInfo};
use crate::notes;
use crate::sampling;
use crate::sampling::CloudProvider;
use crate::schema;
use crate::schema::{Parameters, ToolSchema};
use crate::text;
use crate::tool_order;

verus! {

broadcast use text::views_push;

pub const WEB_SEARCH_ID: &'static str = "web_search";

pub const PYTHON_EXEC_ID: &'static str = "python_exec";

pub const YOUTUBE_WATCH_ID: &'static str = "youtube_watch";

pub const GET_SELF_MODEL_ID: &'static str = "get_self_model";

pub const REFLECT_ID: &'static str = "reflect";

pub const UPDATE_SELF_MODEL_ID: &'static str = "update_self_model";

pub const UPDATE_USER_MODEL_ID: &'static str = "update_user_model";

pub const ADD_INSIGHT_ID: &'static str = "add_insight";

/// The switch that a tool hangs on, if any.
#[derive(Debug, Clone, Copy, PartialEq, Eq, Structural)]
pub enum Switch {
    /// None.
    Free,
    Web,
    Python,
    Fs,
    Background,
}

/// The tools: the name, the group, the label, the switch, whether a profile has it
/// from the start, whether it is dangerous, whether a call counts toward the limit on
/// rounds, and whether calls may run at the same time.
pub const TOOLS: [(&'static str, ToolGroup, &'static str, Switch, bool, bool, bool, bool); 51] = [
    (
        "add_insight",
        ToolGroup::SelfModel,
        "add an insight",
        Switch::Free,
        false,
        false,
        true,
        false,
    ),
    (
        "attachment_read",
        ToolGroup::Files,
        "read an attached file",
        Switch::Free,
        true,
        false,
        true,
        false,
    ),
    (
        "attachment_search",
        ToolGroup::Files,
        "search attached files",
        Switch::Free,
        true,
        false,
        true,
        false,
    ),
    (
        "calculate",
        ToolGroup::Utils,
        "калькулятор",
        Switch::Free,
        true,
        false,
        true,
        false,
    ),
    (
        "call_subagent",
        ToolGroup::Subagent,
        "call a subagent",
        Switch::Free,
        true,
        false,
        true,
        false,
    ),
    (
        "chat_read",
        ToolGroup::Conversation,
        "read another conversation",
        Switch::Free,
        false,
        false,
        true,
        true,
    ),
    (
        "chat_search",
        ToolGroup::Conversation,
        "search other conversations",
        Switch::Free,
        false,
        false,
        true,
        true,
    ),
    (
        "code_build",
        ToolGroup::Files,
        "build the project",
        Switch::Free,
        true,
        true,
        false,
        false,
    ),
    (
        "code_edit",
        ToolGroup::Files,
        "edit project file",
        Switch::Free,
        true,
        true,
        false,
        false,
    ),
    (
        "code_grep",
        ToolGroup::Files,
        "search project",
        Switch::Free,
        true,
        false,
        false,
        false,
    ),
    (
        "code_list",
        ToolGroup::Files,
        "list project files",
        Switch::Free,
        true,
        false,
        false,
        false,
    ),
    (
        "code_read",
        ToolGroup::Files,
        "read project file",
        Switch::Free,
        true,
        false,
        false,
        false,
    ),
    (
        "code_run",
        ToolGroup::Files,
        "run the project",
        Switch::Free,
        true,
        true,
        false,
        false,
    ),
    (
        "code_test",
        ToolGroup::Files,
        "test the project",
        Switch::Free,
        true,
        true,
        false,
        false,
    ),
    (
        "code_write",
        ToolGroup::Files,
        "write project file",
        Switch::Free,
        true,
        true,
        false,
        false,
    ),
    (
        "consolidate_notes",
        ToolGroup::Memory,
        "notes consolidation",
        Switch::Free,
        true,
        false,
        true,
        false,
    ),
    (
        "current_time",
        ToolGroup::Utils,
        "текущее время",
        Switch::Free,
        true,
        false,
        true,
        false,
    ),
    (
        "fetch_url",
        ToolGroup::ExternalWorld,
        "fetch page",
        Switch::Web,
        true,
        false,
        true,
        true,
    ),
    (
        "fs_list",
        ToolGroup::Files,
        "list files",
        Switch::Fs,
        true,
        false,
        true,
        true,
    ),
    (
        "fs_read",
        ToolGroup::Files,
        "read file",
        Switch::Fs,
        true,
        false,
        true,
        true,
    ),
    (
        "fs_write",
        ToolGroup::Files,
        "write file",
        Switch::Fs,
        true,
        true,
        true,
        false,
    ),
    (
        "get_last_user_message_time",
        ToolGroup::Introspection,
        "время посл. сообщения",
        Switch::Free,
        true,
        false,
        true,
        false,
    ),
    (
        "get_llm_history",
        ToolGroup::Introspection,
        "LLM history",
        Switch::Free,
        true,
        false,
        true,
        false,
    ),
    (
        "get_llm_name",
        ToolGroup::Introspection,
        "show LLM name",
        Switch::Free,
        true,
        false,
        true,
        false,
    ),
    (
        "get_sampling",
        ToolGroup::Introspection,
        "показать семплинг",
        Switch::Free,
        true,
        false,
        true,
        false,
    ),
    (
        "get_self_model",
        ToolGroup::SelfModel,
        "show the self-model",
        Switch::Free,
        false,
        false,
        true,
        false,
    ),
    (
        "get_system_message",
        ToolGroup::Introspection,
        "показать сис. сообщение",
        Switch::Free,
        true,
        false,
        true,
        false,
    ),
    (
        "history_read",
        ToolGroup::Conversation,
        "read the summarized history",
        Switch::Free,
        true,
        false,
        true,
        true,
    ),
    (
        "history_search",
        ToolGroup::Conversation,
        "search the summarized history",
        Switch::Free,
        true,
        false,
        true,
        true,
    ),
    (
        "note_cite_source",
        ToolGroup::Memory,
        "сослаться на источник",
        Switch::Free,
        true,
        false,
        true,
        false,
    ),
    (
        "note_link",
        ToolGroup::Memory,
        "link notes",
        Switch::Free,
        true,
        false,
        true,
        false,
    ),
    (
        "note_merge",
        ToolGroup::Memory,
        "merge notes",
        Switch::Free,
        true,
        false,
        true,
        false,
    ),
    (
        "note_neighbors",
        ToolGroup::Memory,
        "note links",
        Switch::Free,
        true,
        false,
        true,
        false,
    ),
    (
        "note_recall",
        ToolGroup::Memory,
        "recall notes",
        Switch::Free,
        true,
        false,
        true,
        false,
    ),
    (
        "note_revise",
        ToolGroup::Memory,
        "revise note",
        Switch::Free,
        true,
        false,
        true,
        false,
    ),
    (
        "note_save",
        ToolGroup::Memory,
        "save note",
        Switch::Free,
        true,
        false,
        true,
        false,
    ),
    (
        "note_supersede",
        ToolGroup::Memory,
        "supersede note",
        Switch::Free,
        true,
        false,
        true,
        false,
    ),
    (
        "python_exec",
        ToolGroup::ExternalWorld,
        "run Python",
        Switch::Python,
        true,
        true,
        true,
        false,
    ),
    (
        "rag_add",
        ToolGroup::Memory,
        "add to knowledge",
        Switch::Free,
        true,
        false,
        true,
        false,
    ),
    (
        "rag_search",
        ToolGroup::Memory,
        "search knowledge",
        Switch::Free,
        true,
        false,
        true,
        false,
    ),
    (
        "reflect",
        ToolGroup::SelfModel,
        "reflect",
        Switch::Free,
        false,
        false,
        true,
        false,
    ),
    (
        "rewrite_current_message",
        ToolGroup::Conversation,
        "rewrite reply",
        Switch::Free,
        false,
        false,
        true,
        false,
    ),
    (
        "run_dialogue",
        ToolGroup::Subagent,
        "dialogue run",
        Switch::Free,
        true,
        false,
        true,
        false,
    ),
    (
        "send_followup_message",
        ToolGroup::Conversation,
        "continue message",
        Switch::Free,
        false,
        false,
        true,
        false,
    ),
    (
        "set_sampling",
        ToolGroup::Introspection,
        "изменить семплинг",
        Switch::Free,
        true,
        false,
        true,
        false,
    ),
    (
        "set_system_message",
        ToolGroup::Introspection,
        "изменить сис. сообщение",
        Switch::Free,
        true,
        false,
        true,
        false,
    ),
    (
        "start_dialogue",
        ToolGroup::Subagent,
        "background dialogue",
        Switch::Background,
        true,
        false,
        true,
        false,
    ),
    (
        "update_self_model",
        ToolGroup::SelfModel,
        "update the self-model",
        Switch::Free,
        false,
        false,
        true,
        false,
    ),
    (
        "update_user_model",
        ToolGroup::SelfModel,
        "update the user model",
        Switch::Free,
        false,
        false,
        true,
        false,
    ),
    (
        "web_search",
        ToolGroup::ExternalWorld,
        "search the web",
        Switch::Web,
        true,
        false,
        true,
        false,
    ),
    (
        "youtube_watch",
        ToolGroup::ExternalWorld,
        "watch a video",
        Switch::Web,
        true,
        false,
        true,
        false,
    ),
];

/// How many tools there are.
pub const TOOL_COUNT: usize = 51;

/// What is said of a tool.
#[derive(Debug)]
pub enum Words {
    /// The text of a key.
    Key(String),
    /// The text of a key, and which parameters there are in the engine's mode.
    Sampling(String, Option<CloudProvider>),
    /// A text that came from elsewhere.
    Given(String),
}

/// Where the schema of a tool's arguments comes from.
#[derive(Debug)]
pub enum Source {
    /// The table of fields, under the tool's name.
    Table,
    /// The sampling fields that the engine takes.
    Sampling(Option<CloudProvider>),
    /// A schema that came from elsewhere, as JSON.
    Given(String),
}

/// A tool in the registry.
#[derive(Debug)]
pub struct Entry {
    pub id: String,
    pub group: ToolGroup,
    pub label: String,
    pub gate: Option<ToolGate>,
    pub enabled_by_default: bool,
    pub danger: bool,
    pub counts_toward_round_limit: bool,
    pub concurrent: bool,
    pub words: Words,
    pub source: Source,
}

/// What is said of a tool.
pub open spec fn words_text(w: Words, loc: Locale) -> Seq<char> {
    match w {
        Words::Key(k) => loc.text(k@),
        Words::Sampling(k, provider) => loc.text(k@) + " "@ + introspection::scope_text(
            provider,
            loc,
        ),
        Words::Given(s) => s@,
    }
}

/// What a schema says of a tool.
pub open spec fn is_schema_of(s: ToolSchema, e: Entry, loc: Locale) -> bool {
    &&& s.name@ == e.id@
    &&& s.description@ == words_text(e.words, loc)
    &&& match e.source {
        Source::Table => s.parameters matches Parameters::Fields(f) && schema::param_views(f@)
            == schema::fields_of(schema::rows_for(e.id@), loc, schema::PARAM_COUNT as int),
        Source::Sampling(provider) => s.parameters matches Parameters::Fields(f)
            && schema::param_views(f@) == schema::sampling_fields(
            provider,
            sampling::SETTABLE_COUNT as int,
        ),
        Source::Given(j) => s.parameters matches Parameters::Given(t) && t@ == j@,
    }
}

impl Entry {
    /// What is said of the tool.
    pub fn description(&self, loc: &Locale) -> (r: String)
        ensures
            r@ == words_text(self.words, *loc),
    {
        match &self.words {
            Words::Key(k) => text::owned(loc.t(k.as_str())),
            Words::Sampling(k, provider) => {
                let note: String = introspection::scope_note(*provider, loc);
                text::cat3(loc.t(k.as_str()), " ", note.as_str())
            },
            Words::Given(s) => s.clone(),
        }
    }

    /// What an engine is told of the tool.
    pub fn schema(&self, loc: &Locale) -> (r: ToolSchema)
        ensures
            is_schema_of(r, *self, *loc),
    {
        let parameters: Parameters = match &self.source {
            Source::Table => Parameters::Fields(schema::parameters(self.id.as_str(), loc)),
            Source::Sampling(provider) => Parameters::Fields(
                schema::sampling_parameters(*provider),
            ),
            Source::Given(j) => Parameters::Given(j.clone()),
        };
        ToolSchema { name: self.id.clone(), description: self.description(loc), parameters }
    }

    /// The tool of a plugin server as the registry holds it.
    pub fn plugin(tool: &McpTool) -> (r: Entry)
        ensures
            r.id@ == tool.id@,
            r.group == ToolGroup::Plugins,
            r.label@ == tool.label@,
            r.gate == Some(ToolGate::Mcp),
            !r.enabled_by_default,
            r.danger,
            r.counts_toward_round_limit,
            !r.concurrent,
            r.words matches Words::Given(d) && d@ == tool.description@,
            r.source matches Source::Given(j) && j@ == tool.input_schema@,
    {
        Entry {
            id: tool.id.clone(),
            group: ToolGroup::Plugins,
            label: tool.label.clone(),
            gate: Some(ToolGate::Mcp),
            enabled_by_default: false,
            danger: true,
            counts_toward_round_limit: true,
            concurrent: false,
            words: Words::Given(tool.description.clone()),
            source: Source::Given(tool.input_schema.clone()),
        }
    }
}

// ---------- the registry ----------

/// The tools by name.
#[derive(Debug)]
pub struct ToolRegistry {
    pub entries: Vec<Entry>,
}

/// The names rise, and no two are the same.
pub open spec fn in_order(entries: Seq<Entry>) -> bool {
    forall|i: int, j: int|
        0 <= i < j < entries.len() ==> text::not_after(
            (#[trigger] entries[i]).id@,
            (#[trigger] entries[j]).id@,
        ) && entries[i].id@ != entries[j].id@
}

/// A tool of this name is there.
pub open spec fn has_id(entries: Seq<Entry>, id: Seq<char>) -> bool {
    exists|i: int| 0 <= i < entries.len() && (#[trigger] entries[i]).id@ == id
}

/// The tool of a name.
pub open spec fn lookup(entries: Seq<Entry>, id: Seq<char>) -> Option<Entry> {
    if has_id(entries, id) {
        Some(entries[choose|i: int| 0 <= i < entries.len() && (#[trigger] entries[i]).id@ == id])
    } else {
        None
    }
}

proof fn lookup_at(entries: Seq<Entry>, i: int)
    requires
        in_order(entries),
        0 <= i < entries.len(),
    ensures
        lookup(entries, entries[i].id@) == Some(entries[i]),
{
    let id = entries[i].id@;
    let k = choose|k: int| 0 <= k < entries.len() && (#[trigger] entries[k]).id@ == id;
    assert(entries[i].id@ == id);
    assert(entries[k].id@ == id);
    if k < i {
        assert(entries[k].id@ != entries[i].id@);
    } else if i < k {
        assert(entries[i].id@ != entries[k].id@);
    }
}

impl ToolRegistry {
    /// The tools stand in the order of their names, each name once.
    pub open spec fn wf(self) -> bool {
        in_order(self.entries@)
    }

    pub fn new() -> (r: ToolRegistry)
        ensures
            r.wf(),
            r.entries@.len() == 0,
    {
        ToolRegistry { entries: Vec::new() }
    }

    /// Puts a tool in; it takes the place of one of the same name. The other tools stay
    /// as they are.
    pub fn register(&mut self, tool: Entry)
        requires
            old(self).wf(),
        ensures
            final(self).wf(),
            lookup(final(self).entries@, tool.id@) == Some(tool),
            forall|id: Seq<char>|
                id != tool.id@ ==> #[trigger] lookup(final(self).entries@, id) == lookup(
                    old(self).entries@,
                    id,
                ),
    {
        let ghost before = self.entries@;
        let mut p: usize = 0;
        while p < self.entries.len() && !text::le(tool.id.as_str(), self.entries[p].id.as_str())
            invariant
                p <= self.entries.len(),
                self.entries@ == before,
                in_order(before),
                forall|j: int|
                    0 <= j < p ==> !text::not_after(tool.id@, (#[trigger] before[j]).id@),
            decreases self.entries.len() - p,
        {
            p = p + 1;
        }
        let ghost id = tool.id@;
        let ghost it = tool;
        assert forall|j: int| 0 <= j < p implies text::not_after((#[trigger] before[j]).id@, id)
            && before[j].id@ != id by {
            text::not_after_total(before[j].id@, id);
            if before[j].id@ == id {
                text::not_after_total(id, id);
            }
        }
        assert forall|j: int| p <= j < before.len() implies text::not_after(
            id,
            (#[trigger] before[j]).id@,
        ) by {
            if j > p {
                assert(text::not_after(before[p as int].id@, before[j].id@));
                text::not_after_transitive(id, before[p as int].id@, before[j].id@);
            }
        }
        if p < self.entries.len() && text::same(self.entries[p].id.as_str(), tool.id.as_str()) {
            self.entries.set(p, tool);
            proof {
                let now = self.entries@;
                assert(now =~= before.update(p as int, it));
                replacing_keeps_order(before, p as int, it);
                lookup_at(now, p as int);
                assert forall|other: Seq<char>| other != id implies #[trigger] lookup(now, other)
                    == lookup(before, other) by {
                    same_elsewhere(before, now, p as int, other);
                }
            }
        } else {
            self.entries.insert(p, tool);
            proof {
                let now = self.entries@;
                assert(now =~= before.insert(p as int, it));
                assert forall|j: int| p <= j < before.len() implies (#[trigger] before[j]).id@
                    != id by {
                    if j > p && before[j].id@ == id {
                        assert(text::not_after(before[p as int].id@, before[j].id@));
                        text::not_after_both_ways(before[p as int].id@, id);
                    }
                }
                inserting_keeps_order(before, p as int, it);
                lookup_at(now, p as int);
                assert forall|other: Seq<char>| other != id implies #[trigger] lookup(now, other)
                    == lookup(before, other) by {
                    same_after_insert(before, now, p as int, it, other);
                }
            }
        }
    }

    /// The tool of a name.
    pub fn get(&self, id: &str) -> (r: Option<&Entry>)
        requires
            self.wf(),
        ensures
            match r {
                Some(e) => lookup(self.entries@, id@) == Some(*e) && e.id@ == id@,
                None => lookup(self.entries@, id@) is None,
            },
    {
        let mut i: usize = 0;
        while i < self.entries.len()
            invariant
                i <= self.entries.len(),
                self.wf(),
                forall|j: int| 0 <= j < i ==> (#[trigger] self.entries@[j]).id@ != id@,
            decreases self.entries.len() - i,
        {
            if text::same(self.entries[i].id.as_str(), id) {
                proof {
                    lookup_at(self.entries@, i as int);
                }
                return Some(&self.entries[i]);
            }
            i = i + 1;
        }
        None
    }

    /// What the settings show of the tools, in the order of their names.
    pub fn infos(&self) -> (r: Vec<ToolInfo>)
        ensures
            r@.len() == self.entries@.len(),
            forall|i: int| 0 <= i < r@.len() ==> is_info_of(#[trigger] r@[i], self.entries@[i]),
    {
        let mut r: Vec<ToolInfo> = Vec::new();
        let mut i: usize = 0;
        while i < self.entries.len()
            invariant
                i <= self.entries.len(),
                r@.len() == i,
                forall|j: int| 0 <= j < i ==> is_info_of(#[trigger] r@[j], self.entries@[j]),
            decreases self.entries.len() - i,
        {
            let e: &Entry = &self.entries[i];
            r.push(
                ToolInfo {
                    id: e.id.clone(),
                    group: e.group,
                    label: e.label.clone(),
                    gate: e.gate,
                    enabled_by_default: e.enabled_by_default,
                    description: None,
                },
            );
            i = i + 1;
        }
        r
    }

    /// What an engine is told of the tools that are enabled, in the order they are
    /// named in. A name that is not known is passed over.
    pub fn schemas_for(&self, enabled: &Vec<String>, loc: &Locale) -> (r: Vec<ToolSchema>)
        requires
            self.wf(),
        ensures
            are_schemas_of(
                r@,
                known(self.entries@, text::views(enabled@), enabled@.len() as int),
                *loc,
            ),
    {
        let ghost names = text::views(enabled@);
        let mut r: Vec<ToolSchema> = Vec::new();
        let mut i: usize = 0;
        while i < enabled.len()
            invariant
                i <= enabled.len(),
                self.wf(),
                names == text::views(enabled@),
                are_schemas_of(r@, known(self.entries@, names, i as int), *loc),
            decreases enabled.len() - i,
        {
            assert(names[i as int] == enabled@[i as int]@);
            match self.get(enabled[i].as_str()) {
                Some(e) => {
                    r.push(e.schema(loc));
                },
                None => {},
            }
            i = i + 1;
        }
        r
    }
}

/// What the settings show of a tool.
pub open spec fn is_info_of(i: ToolInfo, e: Entry) -> bool {
    &&& i.id@ == e.id@
    &&& i.group == e.group
    &&& i.label@ == e.label@
    &&& i.gate == e.gate
    &&& i.enabled_by_default == e.enabled_by_default
    &&& i.description is None
}

/// The tools that are known, among the first `n` names.
pub open spec fn known(entries: Seq<Entry>, names: Seq<Seq<char>>, n: int) -> Seq<Entry>
    decreases n,
{
    if n <= 0 {
        Seq::empty()
    } else {
        match lookup(entries, names[n - 1]) {
            Some(e) => known(entries, names, n - 1).push(e),
            None => known(entries, names, n - 1),
        }
    }
}

pub open spec fn are_schemas_of(s: Seq<ToolSchema>, e: Seq<Entry>, loc: Locale) -> bool {
    &&& s.len() == e.len()
    &&& forall|i: int| 0 <= i < s.len() ==> is_schema_of(#[trigger] s[i], e[i], loc)
}

/// What is said where a tool is called that is not there.
pub fn unknown_tool(id: &str) -> (r: String)
    ensures
        r@ == "unknown tool: "@ + id@,
{
    text::cat2("unknown tool: ", id)
}

proof fn replacing_keeps_order(before: Seq<Entry>, p: int, e: Entry)
    requires
        in_order(before),
        0 <= p < before.len(),
        before[p].id@ == e.id@,
    ensures
        in_order(before.update(p, e)),
{
    let now = before.update(p, e);
    assert forall|i: int, j: int| 0 <= i < j < now.len() implies text::not_after(
        (#[trigger] now[i]).id@,
        (#[trigger] now[j]).id@,
    ) && now[i].id@ != now[j].id@ by {
        assert(now[i].id@ == before[i].id@ && now[j].id@ == before[j].id@);
    }
}

proof fn inserting_keeps_order(before: Seq<Entry>, p: int, e: Entry)
    requires
        in_order(before),
        0 <= p <= before.len(),
        forall|j: int|
            0 <= j < p ==> text::not_after((#[trigger] before[j]).id@, e.id@) && before[j].id@
                != e.id@,
        forall|j: int|
            p <= j < before.len() ==> text::not_after(e.id@, (#[trigger] before[j]).id@)
                && before[j].id@ != e.id@,
    ensures
        in_order(before.insert(p, e)),
{
    let now = before.insert(p, e);
    assert forall|i: int, j: int| 0 <= i < j < now.len() implies text::not_after(
        (#[trigger] now[i]).id@,
        (#[trigger] now[j]).id@,
    ) && now[i].id@ != now[j].id@ by {
        if j < p {
            assert(now[i] == before[i] && now[j] == before[j]);
        } else if i > p {
            assert(now[i] == before[i - 1] && now[j] == before[j - 1]);
        } else if i < p && j > p {
            assert(now[i] == before[i] && now[j] == before[j - 1]);
        } else if i == p {
            assert(now[j] == before[j - 1]);
        } else {
            assert(now[i] == before[i]);
        }
    }
}

proof fn same_elsewhere(before: Seq<Entry>, now: Seq<Entry>, p: int, id: Seq<char>)
    requires
        in_order(before),
        in_order(now),
        0 <= p < before.len(),
        now == before.update(p, now[p]),
        now[p].id@ == before[p].id@,
        id != now[p].id@,
    ensures
        lookup(now, id) == lookup(before, id),
{
    if has_id(before, id) {
        let i = choose|i: int| 0 <= i < before.len() && (#[trigger] before[i]).id@ == id;
        assert(now[i] == before[i]);
        lookup_at(now, i);
        lookup_at(before, i);
    }
    if has_id(now, id) {
        let i = choose|i: int| 0 <= i < now.len() && (#[trigger] now[i]).id@ == id;
        assert(before[i].id@ == id);
    }
}

proof fn same_after_insert(before: Seq<Entry>, now: Seq<Entry>, p: int, e: Entry, id: Seq<char>)
    requires
        in_order(before),
        in_order(now),
        0 <= p <= before.len(),
        now == before.insert(p, e),
        id != e.id@,
    ensures
        lookup(now, id) == lookup(before, id),
{
    if has_id(before, id) {
        let i = choose|i: int| 0 <= i < before.len() && (#[trigger] before[i]).id@ == id;
        let k = if i < p {
            i
        } else {
            i + 1
        };
        assert(now[k] == before[i]);
        lookup_at(now, k);
        lookup_at(before, i);
    }
    if has_id(now, id) {
        let i = choose|i: int| 0 <= i < now.len() && (#[trigger] now[i]).id@ == id;
        let k = if i < p {
            i
        } else {
            i - 1
        };
        assert(i != p);
        assert(before[k].id@ == id);
    }
}

// ---------- our own tools ----------

/// How Python is run.
#[derive(Debug, Clone, Copy, PartialEq, Eq, Structural)]
pub enum PythonMode {
    /// In the Wasmer sandbox.
    Wasmer,
    /// By the interpreter of the machine.
    Local,
}

/// The engine that watches videos.
#[derive(Debug, Clone, Copy, PartialEq, Eq, Structural)]
pub struct VideoConfig {
    /// The longest video that it takes, in minutes.
    pub max_minutes: u64,
}

/// What the registry is made from.
#[derive(Debug)]
pub struct ToolConfig {
    /// How Python is run; as the application has it where nothing is said.
    pub python_mode: Option<PythonMode>,
    /// The Python interpreter; the system's where there is none.
    pub python_path: Option<String>,
    /// Python may use the network.
    pub python_net: bool,
    /// How long Python may run in the sandbox, in seconds; as the application has it where
    /// nothing is said.
    pub python_wasm_timeout: Option<u64>,
    /// How much memory Python may use, in megabytes.
    pub python_wasm_memory_mb: Option<u64>,
    /// Where the sandbox lies.
    pub sandbox_dir: Option<String>,
    /// How many tokens a subagent may answer with; as the application has it where nothing
    /// is said.
    pub subagent_max_tokens: Option<u64>,
    /// How long a subagent may take, in seconds; as the application has it where nothing is
    /// said.
    pub subagent_timeout: Option<u64>,
    /// A web search reads the pages that it finds.
    pub web_fetch_content: bool,
    /// The folder that the file tools work in.
    pub fs_root: Option<String>,
    /// What watches videos; without it only what is known of a video is told.
    pub video: Option<VideoConfig>,
    /// The cloud provider of the chat engine; none where the engine is local.
    pub sampling_provider: Option<CloudProvider>,
}

impl Default for ToolConfig {
    fn default() -> (r: ToolConfig)
        ensures
            r.python_mode is None,
            r.python_path is None,
            r.python_net,
            r.python_wasm_timeout is None,
            r.python_wasm_memory_mb is None,
            r.sandbox_dir is None,
            r.subagent_max_tokens is None,
            r.subagent_timeout is None,
            r.web_fetch_content,
            r.fs_root is None,
            r.video is None,
            r.sampling_provider is None,
    {
        ToolConfig {
            python_mode: None,
            python_path: None,
            python_net: true,
            python_wasm_timeout: None,
            python_wasm_memory_mb: None,
            sandbox_dir: None,
            subagent_max_tokens: None,
            subagent_timeout: None,
            web_fetch_content: true,
            fs_root: None,
            video: None,
            sampling_provider: None,
        }
    }
}

/// Which external side of the program a switch opens.
pub open spec fn gate_for(s: Switch) -> Option<ToolGate> {
    match s {
        Switch::Free => None,
        Switch::Web => Some(ToolGate::Web),
        Switch::Python => Some(ToolGate::Python),
        Switch::Fs => Some(ToolGate::Fs),
        Switch::Background => Some(ToolGate::Background),
    }
}

fn make_gate(s: Switch) -> (r: Option<ToolGate>)
    ensures
        r == gate_for(s),
{
    match s {
        Switch::Free => None,
        Switch::Web => Some(ToolGate::Web),
        Switch::Python => Some(ToolGate::Python),
        Switch::Fs => Some(ToolGate::Fs),
        Switch::Background => Some(ToolGate::Background),
    }
}

/// The key of what is said of a tool.
pub open spec fn desc_key(id: Seq<char>) -> Seq<char> {
    "tool."@ + id + ".desc"@
}

/// The entry is that of a row of the table.
pub open spec fn is_row(e: Entry, i: int, provider: Option<CloudProvider>) -> bool {
    let row = TOOLS@[i];
    &&& e.id@ == row.0@
    &&& e.group == row.1
    &&& e.label@ == row.2@
    &&& e.gate == gate_for(row.3)
    &&& e.enabled_by_default == row.4
    &&& e.danger == row.5
    &&& e.counts_toward_round_limit == row.6
    &&& e.concurrent == row.7
    &&& if row.0@ == GET_SAMPLING_ID@ || row.0@ == SET_SAMPLING_ID@ {
        e.words matches Words::Sampling(k, p) && k@ == desc_key(row.0@) && p == provider
    } else {
        e.words matches Words::Key(k) && k@ == desc_key(row.0@)
    }
    &&& if row.0@ == SET_SAMPLING_ID@ {
        e.source matches Source::Sampling(p) && p == provider
    } else {
        e.source is Table
    }
}

/// The row of a tool, among the first `n`; `-1` where there is none.
pub open spec fn row_of(id: Seq<char>, n: int) -> int
    decreases n,
{
    if n <= 0 {
        -1
    } else if TOOLS@[n - 1].0@ == id {
        n - 1
    } else {
        row_of(id, n - 1)
    }
}

/// The registry holds the tools of the first `n` rows, and no others.
pub open spec fn holds_rows(entries: Seq<Entry>, provider: Option<CloudProvider>, n: int) -> bool {
    forall|id: Seq<char>|
        match #[trigger] lookup(entries, id) {
            Some(e) => row_of(id, n) >= 0 && is_row(e, row_of(id, n), provider),
            None => row_of(id, n) < 0,
        }
}

/// The entries are those of the table, row by row.
pub open spec fn are_rows(entries: Seq<Entry>, provider: Option<CloudProvider>) -> bool {
    &&& entries.len() == TOOL_COUNT
    &&& forall|i: int| 0 <= i < entries.len() ==> is_row(#[trigger] entries[i], i, provider)
}

/// The names of the entries.
spec fn names_of(entries: Seq<Entry>) -> Seq<Seq<char>> {
    entries.map_values(|e: Entry| e.id@)
}

/// The names of the table.
pub open spec fn table_names() -> Seq<Seq<char>> {
    Seq::new(TOOL_COUNT as nat, |i: int| TOOLS@[i].0@)
}

proof fn table_names_climb()
    ensures
        names_climb(table_names()),
{
    let v = table_names();
    assert forall|i: int, j: int| 0 <= i < j < v.len() implies text::not_after(
        #[trigger] v[i],
        #[trigger] v[j],
    ) && v[i] != v[j] by {
        tool_order::the_table_is_in_order(i, j);
    }
}

proof fn found_row_is_named(id: Seq<char>, n: int)
    requires
        0 <= n <= TOOL_COUNT,
    ensures
        -1 <= row_of(id, n) < n,
        row_of(id, n) >= 0 ==> TOOLS@[row_of(id, n)].0@ == id,
    decreases n,
{
    if n > 0 {
        found_row_is_named(id, n - 1);
    }
}

proof fn same_names(a: Seq<Seq<char>>, b: Seq<Seq<char>>)
    requires
        names_climb(a),
        names_climb(b),
        forall|id: Seq<char>| a.contains(id) <==> b.contains(id),
    ensures
        a == b,
    decreases a.len(),
{
    if a.len() == 0 {
        if b.len() > 0 {
            assert(b.contains(b[0]));
            assert(a.contains(b[0]));
        }
        assert(a =~= b);
    } else {
        let x = a.last();
        assert(a[a.len() - 1] == x);
        assert(a.contains(x));
        assert(b.contains(x));
        let y = b.last();
        assert(b[b.len() - 1] == y);
        assert(b.contains(y));
        assert(a.contains(y));
        let i = choose|i: int| 0 <= i < b.len() && b[i] == x;
        let j = choose|j: int| 0 <= j < a.len() && a[j] == y;
        if j < a.len() - 1 && i < b.len() - 1 {
            assert(text::not_after(a[j], a[a.len() - 1]));
            assert(text::not_after(b[i], b[b.len() - 1]));
            text::not_after_both_ways(x, y);
        }
        assert(x == y);
        let c = a.drop_last();
        let d = b.drop_last();
        assert forall|id: Seq<char>| c.contains(id) <==> d.contains(id) by {
            if c.contains(id) {
                let k = choose|k: int| 0 <= k < c.len() && c[k] == id;
                assert(a[k] == id);
                assert(a[k] != a[a.len() - 1]);
                assert(b.contains(id));
                let m = choose|m: int| 0 <= m < b.len() && b[m] == id;
                assert(d[m] == id);
            }
            if d.contains(id) {
                let k = choose|k: int| 0 <= k < d.len() && d[k] == id;
                assert(b[k] == id);
                assert(b[k] != b[b.len() - 1]);
                assert(a.contains(id));
                let m = choose|m: int| 0 <= m < a.len() && a[m] == id;
                assert(c[m] == id);
            }
        }
        assert(names_climb(c)) by {
            assert forall|i: int, j: int| 0 <= i < j < c.len() implies text::not_after(
                #[trigger] c[i],
                #[trigger] c[j],
            ) && c[i] != c[j] by {
                assert(c[i] == a[i] && c[j] == a[j]);
            }
        }
        assert(names_climb(d)) by {
            assert forall|i: int, j: int| 0 <= i < j < d.len() implies text::not_after(
                #[trigger] d[i],
                #[trigger] d[j],
            ) && d[i] != d[j] by {
                assert(d[i] == b[i] && d[j] == b[j]);
            }
        }
        same_names(c, d);
        assert(a =~= c.push(x));
        assert(b =~= d.push(y));
    }
}

proof fn rows_are_in_place(entries: Seq<Entry>, provider: Option<CloudProvider>)
    requires
        in_order(entries),
        holds_rows(entries, provider, TOOL_COUNT as int),
    ensures
        are_rows(entries, provider),
{
    let a = names_of(entries);
    let b = table_names();
    let n = TOOL_COUNT as int;
    table_names_climb();
    assert(names_climb(a)) by {
        assert forall|i: int, j: int| 0 <= i < j < a.len() implies text::not_after(
            #[trigger] a[i],
            #[trigger] a[j],
        ) && a[i] != a[j] by {
            assert(a[i] == entries[i].id@ && a[j] == entries[j].id@);
        }
    }
    assert forall|id: Seq<char>| a.contains(id) <==> b.contains(id) by {
        found_row_is_named(id, n);
        if a.contains(id) {
            let i = choose|i: int| 0 <= i < a.len() && a[i] == id;
            assert(entries[i].id@ == id);
            assert(lookup(entries, id) is Some);
            assert(b[row_of(id, n)] == id);
        }
        if b.contains(id) {
            let i = choose|i: int| 0 <= i < b.len() && b[i] == id;
            tool_order::a_row_is_found(i, n);
            assert(lookup(entries, id) is Some);
            let k = choose|k: int| 0 <= k < entries.len() && (#[trigger] entries[k]).id@ == id;
            assert(a[k] == id);
        }
    }
    same_names(a, b);
    assert(a.len() == entries.len());
    assert forall|i: int| 0 <= i < entries.len() implies is_row(
        #[trigger] entries[i],
        i,
        provider,
    ) by {
        assert(a[i] == entries[i].id@ && b[i] == TOOLS@[i].0@);
        lookup_at(entries, i);
        tool_order::a_row_is_found(i, n);
        assert(lookup(entries, entries[i].id@) == Some(entries[i]));
    }
}

fn make_entry(i: usize, provider: Option<CloudProvider>) -> (r: Entry)
    requires
        i < TOOL_COUNT,
    ensures
        is_row(r, i as int, provider),
{
    let row: (&'static str, ToolGroup, &'static str, Switch, bool, bool, bool, bool) = TOOLS[i];
    let key: String = text::cat3("tool.", row.0, ".desc");
    let sets: bool = text::same(row.0, SET_SAMPLING_ID);
    let words: Words = if sets || text::same(row.0, GET_SAMPLING_ID) {
        Words::Sampling(key, provider)
    } else {
        Words::Key(key)
    };
    let source: Source = if sets {
        Source::Sampling(provider)
    } else {
        Source::Table
    };
    Entry {
        id: text::owned(row.0),
        group: row.1,
        label: text::owned(row.2),
        gate: make_gate(row.3),
        enabled_by_default: row.4,
        danger: row.5,
        counts_toward_round_limit: row.6,
        concurrent: row.7,
        words,
        source,
    }
}

/// The registry with all our own tools. Switches are not looked at here.
pub fn standard_registry(cfg: &ToolConfig) -> (r: ToolRegistry)
    ensures
        r.wf(),
        holds_rows(r.entries@, cfg.sampling_provider, TOOL_COUNT as int),
        are_rows(r.entries@, cfg.sampling_provider),
{
    let mut r: ToolRegistry = ToolRegistry::new();
    let mut i: usize = 0;
    while i < TOOL_COUNT
        invariant
            i <= TOOL_COUNT,
            TOOLS@.len() == TOOL_COUNT,
            r.wf(),
            holds_rows(r.entries@, cfg.sampling_provider, i as int),
        decreases TOOL_COUNT - i,
    {
        let e: Entry = make_entry(i, cfg.sampling_provider);
        let ghost it = e;
        let ghost before = r.entries@;
        r.register(e);
        assert forall|id: Seq<char>|
            match #[trigger] lookup(r.entries@, id) {
                Some(e) => row_of(id, i + 1) >= 0 && is_row(
                    e,
                    row_of(id, i + 1),
                    cfg.sampling_provider,
                ),
                None => row_of(id, i + 1) < 0,
            } by {
            if id == it.id@ {
                assert(row_of(id, i + 1) == i);
            } else {
                assert(lookup(r.entries@, id) == lookup(before, id));
                assert(row_of(id, i + 1) == row_of(id, i as int));
            }
        }
        i = i + 1;
    }
    proof {
        rows_are_in_place(r.entries@, cfg.sampling_provider);
    }
    r
}

/// What the settings show of a row of the table. Our own tools are not described there.
pub open spec fn is_info_of_row(info: ToolInfo, i: int) -> bool {
    let row = TOOLS@[i];
    &&& info.id@ == row.0@
    &&& info.group == row.1
    &&& info.label@ == row.2@
    &&& info.gate == gate_for(row.3)
    &&& info.enabled_by_default == row.4
    &&& info.description is None
}

/// What the settings show of all our own tools, row by row.
pub open spec fn is_catalog(c: Seq<ToolInfo>) -> bool {
    &&& c.len() == TOOL_COUNT
    &&& forall|i: int| 0 <= i < c.len() ==> is_info_of_row(#[trigger] c[i], i)
}

/// What the settings show of all our own tools, in the order of their names.
pub fn tool_catalog() -> (r: Vec<ToolInfo>)
    ensures
        is_catalog(r@),
{
    let reg: ToolRegistry = standard_registry(&ToolConfig::default());
    let r: Vec<ToolInfo> = reg.infos();
    assert forall|i: int| 0 <= i < r@.len() implies is_info_of_row(#[trigger] r@[i], i) by {
        assert(is_info_of(r@[i], reg.entries@[i]));
        assert(is_row(reg.entries@[i], i, None));
    }
    r
}

/// The names rise, and no two are the same.
pub open spec fn names_climb(v: Seq<Seq<char>>) -> bool {
    forall|i: int, j: int|
        0 <= i < j < v.len() ==> text::not_after(#[trigger] v[i], #[trigger] v[j]) && v[i] != v[j]
}

/// The names of the first `n` rows; only those that a profile has from the start, where
/// `defaults` asks for these.
pub open spec fn listed(defaults: bool, n: int) -> Seq<Seq<char>>
    decreases n,
{
    if n <= 0 {
        Seq::empty()
    } else if !defaults || TOOLS@[n - 1].4 {
        listed(defaults, n - 1).push(TOOLS@[n - 1].0@)
    } else {
        listed(defaults, n - 1)
    }
}

fn list_ids(defaults: bool) -> (r: Vec<String>)
    ensures
        text::views(r@) == listed(defaults, TOOL_COUNT as int),
{
    let reg: ToolRegistry = standard_registry(&ToolConfig::default());
    let mut r: Vec<String> = Vec::new();
    let mut i: usize = 0;
    assert(text::views(r@) =~= Seq::<Seq<char>>::empty());
    while i < reg.entries.len()
        invariant
            i <= reg.entries.len(),
            are_rows(reg.entries@, None),
            text::views(r@) == listed(defaults, i as int),
        decreases reg.entries.len() - i,
    {
        let e: &Entry = &reg.entries[i];
        assert(is_row(reg.entries@[i as int], i as int, None));
        if !defaults || e.enabled_by_default {
            r.push(e.id.clone());
        }
        i = i + 1;
    }
    r
}

/// The names of the tools that a profile has from the start, in order.
pub fn default_tool_ids() -> (r: Vec<String>)
    ensures
        text::views(r@) == listed(true, TOOL_COUNT as int),
{
    list_ids(true)
}

/// The names of all our own tools, in order.
pub fn all_tool_ids() -> (r: Vec<String>)
    ensures
        text::views(r@) == listed(false, TOOL_COUNT as int),
{
    list_ids(false)
}

/// The names in a catalog.
pub open spec fn catalog_names(c: Seq<ToolInfo>) -> Seq<Seq<char>> {
    c.map_values(|i: ToolInfo| i.id@)
}

/// The names, among the first `n` of a catalog, of the tools that a profile has from the
/// start.
pub open spec fn default_names(c: Seq<ToolInfo>, n: int) -> Seq<Seq<char>>
    decreases n,
{
    if n <= 0 {
        Seq::empty()
    } else if c[n - 1].enabled_by_default {
        default_names(c, n - 1).push(c[n - 1].id@)
    } else {
        default_names(c, n - 1)
    }
}

proof fn all_are_listed(n: int)
    requires
        0 <= n <= TOOL_COUNT,
    ensures
        listed(false, n) == table_names().take(n),
    decreases n,
{
    if n > 0 {
        all_are_listed(n - 1);
        assert(table_names().take(n) =~= table_names().take(n - 1).push(TOOLS@[n - 1].0@));
    } else {
        assert(listed(false, n) =~= table_names().take(n));
    }
}

/// The catalog is in the order of the names, no name stands in it twice, and they are
/// those of all our own tools. Each tool has a label, and none a description.
pub proof fn the_catalog_is_in_order(c: Seq<ToolInfo>)
    requires
        is_catalog(c),
    ensures
        names_climb(catalog_names(c)),
        catalog_names(c) == listed(false, TOOL_COUNT as int),
        forall|i: int|
            0 <= i < c.len() ==> (#[trigger] c[i]).label@.len() > 0 && c[i].description is None,
{
    table_names_climb();
    all_are_listed(TOOL_COUNT as int);
    assert(catalog_names(c) =~= table_names()) by {
        assert forall|i: int| 0 <= i < c.len() implies catalog_names(c)[i] == table_names()[i] by {
            assert(is_info_of_row(c[i], i));
        }
    }
    assert(table_names().take(TOOL_COUNT as int) =~= table_names());
    assert forall|i: int| 0 <= i < c.len() implies (#[trigger] c[i]).label@.len() > 0
        && c[i].description is None by {
        tool_order::every_tool_has_a_label(i);
    }
}

proof fn defaults_so_far(c: Seq<ToolInfo>, n: int)
    requires
        is_catalog(c),
        0 <= n <= TOOL_COUNT,
    ensures
        listed(true, n) == default_names(c, n),
        is_part_of(listed(true, n), listed(false, n)),
    decreases n,
{
    if n > 0 {
        defaults_so_far(c, n - 1);
        assert(is_info_of_row(c[n - 1], n - 1));
        let id = TOOLS@[n - 1].0@;
        let some = listed(true, n - 1);
        let all = listed(false, n - 1);
        assert(some.push(id).drop_last() =~= some);
        assert(all.push(id).drop_last() =~= all);
    }
}

/// What a profile has from the start is what the catalog says of it, in the catalog's
/// order: a part of all our own tools.
pub proof fn the_defaults_are_the_catalogs_own(c: Seq<ToolInfo>)
    requires
        is_catalog(c),
    ensures
        listed(true, TOOL_COUNT as int) == default_names(c, c.len() as int),
        is_part_of(listed(true, TOOL_COUNT as int), listed(false, TOOL_COUNT as int)),
{
    defaults_so_far(c, TOOL_COUNT as int);
}

proof fn listed_so_far(defaults: bool, id: Seq<char>, n: int)
    requires
        0 <= n <= TOOL_COUNT,
    ensures
        listed(defaults, n).contains(id) <==> row_of(id, n) >= 0 && (!defaults || TOOLS@[row_of(
            id,
            n,
        )].4),
    decreases n,
{
    if n > 0 {
        listed_so_far(defaults, id, n - 1);
        let before = listed(defaults, n - 1);
        let now = listed(defaults, n);
        found_row_is_named(id, n - 1);
        if TOOLS@[n - 1].0@ == id {
            if row_of(id, n - 1) >= 0 {
                tool_order::the_table_is_in_order(row_of(id, n - 1), n - 1);
            }
            if now.len() > before.len() {
                assert(now[before.len() as int] == id);
            }
        } else {
            if before.contains(id) {
                let k = choose|k: int| 0 <= k < before.len() && before[k] == id;
                assert(now[k] == id);
            }
            if now.contains(id) {
                let k = choose|k: int| 0 <= k < now.len() && now[k] == id;
                assert(before[k] == id);
            }
        }
    }
}

/// A tool is listed by its name; among those that a profile has from the start, where
/// its row says so. The tools that steer the conversation are there to be chosen, and are
/// not among these; revising a note is.
pub proof fn a_tool_is_listed_by_its_row(defaults: bool, id: Seq<char>)
    ensures
        ({
            let i = row_of(id, TOOL_COUNT as int);
            listed(defaults, TOOL_COUNT as int).contains(id) <==> i >= 0 && (!defaults
                || TOOLS@[i].4)
        }),
        control::is_control(id) ==> listed(false, TOOL_COUNT as int).contains(id) && !listed(
            true,
            TOOL_COUNT as int,
        ).contains(id),
        id == notes::NOTE_REVISE_ID@ ==> listed(true, TOOL_COUNT as int).contains(id),
{
    let n = TOOL_COUNT as int;
    listed_so_far(defaults, id, n);
    listed_so_far(true, id, n);
    listed_so_far(false, id, n);
    // The rows of `note_revise` and of the two tools that steer the conversation.
    tool_order::a_row_is_found(34, n);
    tool_order::a_row_is_found(41, n);
    tool_order::a_row_is_found(43, n);
}

// ---------- what a model gets ----------

/// The switches.
#[derive(Debug, Clone, Copy, PartialEq, Eq, Structural)]
pub struct Switches {
    pub web: bool,
    pub python: bool,
    pub fs: bool,
    pub mcp: bool,
    pub background: bool,
}

/// The engine takes a sampling parameter at all.
pub open spec fn sampling_available(provider: Option<CloudProvider>) -> bool {
    sampling::supported_names(provider, sampling::FIELD_COUNT as int).len() > 0
}

/// A tool passes the switches: the sampling tools where the engine takes a parameter,
/// the plugins' tools by their prefix, any other by the switch it hangs on.
pub open spec fn passes(id: Seq<char>, on: Switches, provider: Option<CloudProvider>) -> bool {
    if id == GET_SAMPLING_ID@ || id == SET_SAMPLING_ID@ {
        sampling_available(provider)
    } else if text::stands_at(id, MCP_TOOL_PREFIX@, 0) {
        on.mcp
    } else {
        let i = row_of(id, TOOL_COUNT as int);
        if i < 0 {
            true
        } else {
            match TOOLS@[i].3 {
                Switch::Free => true,
                Switch::Web => on.web,
                Switch::Python => on.python,
                Switch::Fs => on.fs,
                Switch::Background => on.background,
            }
        }
    }
}

/// The tools that pass the switches, among the first `n`.
pub open spec fn passing(
    enabled: Seq<Seq<char>>,
    on: Switches,
    provider: Option<CloudProvider>,
    n: int,
) -> Seq<Seq<char>>
    decreases n,
{
    if n <= 0 {
        Seq::empty()
    } else if passes(enabled[n - 1], on, provider) {
        passing(enabled, on, provider, n - 1).push(enabled[n - 1])
    } else {
        passing(enabled, on, provider, n - 1)
    }
}

fn find_row(id: &str) -> (r: Option<usize>)
    ensures
        match r {
            Some(i) => row_of(id@, TOOL_COUNT as int) == i && i < TOOL_COUNT,
            None => row_of(id@, TOOL_COUNT as int) < 0,
        },
{
    let mut n: usize = TOOL_COUNT;
    while n > 0
        invariant
            n <= TOOL_COUNT,
            TOOLS@.len() == TOOL_COUNT,
            row_of(id@, n as int) == row_of(id@, TOOL_COUNT as int),
        decreases n,
    {
        if text::same(TOOLS[n - 1].0, id) {
            return Some(n - 1);
        }
        n = n - 1;
    }
    None
}

/// A tool passes the switches.
pub fn is_offered(id: &str, on: Switches, provider: Option<CloudProvider>) -> (r: bool)
    ensures
        r == passes(id@, on, provider),
{
    if text::same(id, GET_SAMPLING_ID) || text::same(id, SET_SAMPLING_ID) {
        let names: Vec<String> = sampling::supported_sampling_fields(provider);
        assert(text::views(names@).len() == names@.len());
        return names.len() > 0;
    }
    if text::starts_with(id, MCP_TOOL_PREFIX) {
        return on.mcp;
    }
    match find_row(id) {
        None => true,
        Some(i) => match TOOLS[i].3 {
            Switch::Free => true,
            Switch::Web => on.web,
            Switch::Python => on.python,
            Switch::Fs => on.fs,
            Switch::Background => on.background,
        },
    }
}

/// The tools that a model gets: those that are enabled and pass the switches, in the
/// order in which they are enabled.
pub fn offered_tool_ids(enabled: &Vec<String>, on: Switches, provider: Option<CloudProvider>) -> (r:
    Vec<String>)
    ensures
        text::views(r@) == passing(text::views(enabled@), on, provider, enabled@.len() as int),
{
    let ghost names = text::views(enabled@);
    let mut r: Vec<String> = Vec::new();
    let mut i: usize = 0;
    assert(text::views(r@) =~= Seq::<Seq<char>>::empty());
    while i < enabled.len()
        invariant
            i <= enabled.len(),
            names == text::views(enabled@),
            text::views(r@) == passing(names, on, provider, i as int),
        decreases enabled.len() - i,
    {
        assert(names[i as int] == enabled@[i as int]@);
        if is_offered(enabled[i].as_str(), on, provider) {
            r.push(enabled[i].clone());
        }
        i = i + 1;
    }
    r
}

/// The tools that a model gets while nothing may outlive the turn.
pub fn effective_tool_ids(
    enabled: &Vec<String>,
    web_enabled: bool,
    python_enabled: bool,
    fs_enabled: bool,
    mcp_enabled: bool,
    sampling_provider: Option<CloudProvider>,
) -> (r: Vec<String>)
    ensures
        text::views(r@) == passing(
            text::views(enabled@),
            (Switches {
                web: web_enabled,
                python: python_enabled,
                fs: fs_enabled,
                mcp: mcp_enabled,
                background: false,
            }),
            sampling_provider,
            enabled@.len() as int,
        ),
{
    let on: Switches = Switches {
        web: web_enabled,
        python: python_enabled,
        fs: fs_enabled,
        mcp: mcp_enabled,
        background: false,
    };
    offered_tool_ids(enabled, on, sampling_provider)
}

/// One set of switches has on whatever another has.
pub open spec fn no_less(a: Switches, b: Switches) -> bool {
    &&& a.web ==> b.web
    &&& a.python ==> b.python
    &&& a.fs ==> b.fs
    &&& a.mcp ==> b.mcp
    &&& a.background ==> b.background
}

/// A model gets only tools that are enabled, and every one of them that passes the
/// switches.
pub proof fn only_enabled_tools_are_offered(
    enabled: Seq<Seq<char>>,
    on: Switches,
    provider: Option<CloudProvider>,
    n: int,
    id: Seq<char>,
)
    requires
        0 <= n <= enabled.len(),
    ensures
        passing(enabled, on, provider, n).contains(id) <==> enabled.take(n).contains(id) && passes(
            id,
            on,
            provider,
        ),
    decreases n,
{
    if n > 0 {
        only_enabled_tools_are_offered(enabled, on, provider, n - 1, id);
        let before = passing(enabled, on, provider, n - 1);
        let now = passing(enabled, on, provider, n);
        let names = enabled.take(n);
        let fewer = enabled.take(n - 1);
        if names.contains(id) && passes(id, on, provider) {
            let k = choose|k: int| 0 <= k < names.len() && names[k] == id;
            if k < n - 1 {
                assert(fewer[k] == id);
                let m = choose|m: int| 0 <= m < before.len() && before[m] == id;
                assert(now[m] == id);
            } else {
                assert(now[now.len() - 1] == id);
            }
        }
        if now.contains(id) {
            let m = choose|m: int| 0 <= m < now.len() && now[m] == id;
            if m < before.len() {
                assert(before[m] == id);
                let k = choose|k: int| 0 <= k < fewer.len() && fewer[k] == id;
                assert(names[k] == id);
            } else {
                assert(names[n - 1] == id);
            }
        }
    }
}

/// Putting a switch on never takes a tool away.
pub proof fn a_switch_only_adds(
    a: Switches,
    b: Switches,
    provider: Option<CloudProvider>,
    id: Seq<char>,
)
    requires
        no_less(a, b),
        passes(id, a, provider),
    ensures
        passes(id, b, provider),
{
}

/// A tool of our own that hangs on no switch passes them, however they stand.
pub proof fn free_tools_pass_every_switch(
    on: Switches,
    provider: Option<CloudProvider>,
    id: Seq<char>,
)
    requires
        row_of(id, TOOL_COUNT as int) >= 0,
        TOOLS@[row_of(id, TOOL_COUNT as int)].3 == Switch::Free,
        id != GET_SAMPLING_ID@,
        id != SET_SAMPLING_ID@,
        !text::stands_at(id, MCP_TOOL_PREFIX@, 0),
    ensures
        passes(id, on, provider),
{
}

/// All of the tools that pass the switches.
pub open spec fn effective(
    enabled: Seq<Seq<char>>,
    on: Switches,
    provider: Option<CloudProvider>,
) -> Seq<Seq<char>> {
    passing(enabled, on, provider, enabled.len() as int)
}

proof fn passing_looks_no_further(
    a: Seq<Seq<char>>,
    b: Seq<Seq<char>>,
    on: Switches,
    provider: Option<CloudProvider>,
    n: int,
)
    requires
        n <= a.len(),
        n <= b.len(),
        forall|i: int| 0 <= i < n ==> #[trigger] a[i] == b[i],
    ensures
        passing(a, on, provider, n) == passing(b, on, provider, n),
    decreases n,
{
    if n > 0 {
        passing_looks_no_further(a, b, on, provider, n - 1);
        assert(a[n - 1] == b[n - 1]);
    }
}

proof fn one_more_enabled(
    enabled: Seq<Seq<char>>,
    id: Seq<char>,
    on: Switches,
    provider: Option<CloudProvider>,
)
    ensures
        effective(enabled.push(id), on, provider) == if passes(id, on, provider) {
            effective(enabled, on, provider).push(id)
        } else {
            effective(enabled, on, provider)
        },
{
    passing_looks_no_further(enabled.push(id), enabled, on, provider, enabled.len() as int);
}

/// Two lists enabled one after the other give what each gives, one after the other.
pub proof fn lists_are_judged_tool_by_tool(
    a: Seq<Seq<char>>,
    b: Seq<Seq<char>>,
    on: Switches,
    provider: Option<CloudProvider>,
)
    ensures
        effective(a + b, on, provider) == effective(a, on, provider) + effective(b, on, provider),
    decreases b.len(),
{
    if b.len() == 0 {
        assert(a + b =~= a);
        assert(effective(a, on, provider) + effective(b, on, provider) =~= effective(
            a,
            on,
            provider,
        ));
    } else {
        let rest = b.drop_last();
        let id = b.last();
        lists_are_judged_tool_by_tool(a, rest, on, provider);
        assert(a + b =~= (a + rest).push(id));
        assert(b =~= rest.push(id));
        one_more_enabled(a + rest, id, on, provider);
        one_more_enabled(rest, id, on, provider);
        assert(effective(a + b, on, provider) =~= effective(a, on, provider) + effective(
            b,
            on,
            provider,
        ));
    }
}

/// What passes the switches passes them again.
pub proof fn switching_twice_changes_nothing(
    enabled: Seq<Seq<char>>,
    on: Switches,
    provider: Option<CloudProvider>,
)
    ensures
        effective(effective(enabled, on, provider), on, provider) == effective(
            enabled,
            on,
            provider,
        ),
    decreases enabled.len(),
{
    if enabled.len() > 0 {
        let rest = enabled.drop_last();
        let id = enabled.last();
        switching_twice_changes_nothing(rest, on, provider);
        assert(enabled =~= rest.push(id));
        one_more_enabled(rest, id, on, provider);
        one_more_enabled(effective(rest, on, provider), id, on, provider);
    }
}

/// The items of `a` stand in `b`, in the same order.
pub open spec fn is_part_of(a: Seq<Seq<char>>, b: Seq<Seq<char>>) -> bool
    decreases b.len(),
{
    if a.len() == 0 {
        true
    } else if b.len() == 0 {
        false
    } else if a.last() == b.last() && is_part_of(a.drop_last(), b.drop_last()) {
        true
    } else {
        is_part_of(a, b.drop_last())
    }
}

/// With more switches on, a model gets what it got before, in the same order, and perhaps
/// more in between; and never anything that is not enabled.
pub proof fn switches_add_in_place(
    enabled: Seq<Seq<char>>,
    a: Switches,
    b: Switches,
    provider: Option<CloudProvider>,
)
    requires
        no_less(a, b),
    ensures
        is_part_of(effective(enabled, a, provider), effective(enabled, b, provider)),
        is_part_of(effective(enabled, b, provider), enabled),
    decreases enabled.len(),
{
    if enabled.len() > 0 {
        let rest = enabled.drop_last();
        let id = enabled.last();
        switches_add_in_place(rest, a, b, provider);
        assert(enabled =~= rest.push(id));
        one_more_enabled(rest, id, a, provider);
        one_more_enabled(rest, id, b, provider);
        let x = effective(rest, a, provider);
        let y = effective(rest, b, provider);
        assert(x.push(id).drop_last() =~= x);
        assert(y.push(id).drop_last() =~= y);
        assert(rest.push(id).drop_last() =~= rest);
    }
}

/// With every switch on and an engine that takes sampling parameters, a model gets
/// whatever is enabled. The tool that outlives the turn has a switch of its own, so a
/// list without it needs only the other four.
pub proof fn nothing_is_withheld_with_all_on(
    enabled: Seq<Seq<char>>,
    on: Switches,
    provider: Option<CloudProvider>,
)
    requires
        on.web && on.python && on.fs && on.mcp,
        on.background || forall|i: int|
            0 <= i < enabled.len() ==> !in_background(#[trigger] enabled[i]),
        sampling_available(provider),
    ensures
        effective(enabled, on, provider) == enabled,
    decreases enabled.len(),
{
    if enabled.len() > 0 {
        let rest = enabled.drop_last();
        let id = enabled.last();
        assert forall|i: int| 0 <= i < rest.len() && !on.background implies !in_background(
            #[trigger] rest[i],
        ) by {
            assert(rest[i] == enabled[i]);
        }
        nothing_is_withheld_with_all_on(rest, on, provider);
        assert(enabled =~= rest.push(id));
        assert(enabled[enabled.len() - 1] == id);
        one_more_enabled(rest, id, on, provider);
    } else {
        assert(effective(enabled, on, provider) =~= enabled);
    }
}

/// The tool hangs on the switch for what outlives the turn.
pub open spec fn in_background(id: Seq<char>) -> bool {
    let i = row_of(id, TOOL_COUNT as int);
    i >= 0 && TOOLS@[i].3 == Switch::Background
}

// ---------- what a turn offers ----------

/// What the chat of a turn has: a project, lines in the slots of its commands, and a part
/// of the conversation that is folded into a summary.
#[derive(Debug, Clone, Copy, PartialEq, Eq, Structural)]
pub struct ChatState {
    pub attached: bool,
    pub commands: WorkspaceCommands,
    pub folded: bool,
}

/// The tool reads what is folded.
pub open spec fn reads_history(id: Seq<char>) -> bool {
    id == history::HISTORY_READ_ID@ || id == history::HISTORY_SEARCH_ID@
}

/// The chat has what the tool works on.
pub open spec fn has_matter(id: Seq<char>, chat: ChatState) -> bool {
    &&& code::is_offered(id, chat.attached, chat.commands) != Some(false)
    &&& reads_history(id) ==> chat.folded
}

/// The tools that pass the switches and find their matter in the chat, among the first `n`.
pub open spec fn usable(
    enabled: Seq<Seq<char>>,
    on: Switches,
    provider: Option<CloudProvider>,
    chat: ChatState,
    n: int,
) -> Seq<Seq<char>>
    decreases n,
{
    if n <= 0 {
        Seq::empty()
    } else if passes(enabled[n - 1], on, provider) && has_matter(enabled[n - 1], chat) {
        usable(enabled, on, provider, chat, n - 1).push(enabled[n - 1])
    } else {
        usable(enabled, on, provider, chat, n - 1)
    }
}

fn finds_matter(id: &str, chat: ChatState) -> (r: bool)
    ensures
        r == has_matter(id@, chat),
{
    if (text::same(id, history::HISTORY_READ_ID) || text::same(id, history::HISTORY_SEARCH_ID))
        && !chat.folded {
        return false;
    }
    match code::offered(id, chat.attached, chat.commands) {
        Some(b) => b,
        None => true,
    }
}

/// The tools that a turn offers to the model: those that are enabled, pass the switches
/// and find their matter in the chat, in the order in which they are enabled. The project
/// tools are there only with a project, a command only with its line, and the history
/// tools only while a part of the conversation is folded.
pub fn turn_tool_ids(
    enabled: &Vec<String>,
    on: Switches,
    provider: Option<CloudProvider>,
    chat: ChatState,
) -> (r: Vec<String>)
    ensures
        text::views(r@) == usable(
            text::views(enabled@),
            on,
            provider,
            chat,
            enabled@.len() as int,
        ),
{
    let ghost names = text::views(enabled@);
    let mut r: Vec<String> = Vec::new();
    let mut i: usize = 0;
    assert(text::views(r@) =~= Seq::<Seq<char>>::empty());
    while i < enabled.len()
        invariant
            i <= enabled.len(),
            names == text::views(enabled@),
            text::views(r@) == usable(names, on, provider, chat, i as int),
        decreases enabled.len() - i,
    {
        assert(names[i as int] == enabled@[i as int]@);
        if is_offered(enabled[i].as_str(), on, provider) && finds_matter(
            enabled[i].as_str(),
            chat,
        ) {
            r.push(enabled[i].clone());
        }
        i = i + 1;
    }
    r
}

/// A turn offers a tool exactly where it is enabled, passes the switches and finds its
/// matter in the chat. So without a project no project tool is offered, and without a
/// folded part of the conversation no history tool.
pub proof fn a_turn_offers_what_the_chat_has(
    enabled: Seq<Seq<char>>,
    on: Switches,
    provider: Option<CloudProvider>,
    chat: ChatState,
    n: int,
    id: Seq<char>,
)
    requires
        0 <= n <= enabled.len(),
    ensures
        usable(enabled, on, provider, chat, n).contains(id) <==> enabled.take(n).contains(id)
            && passes(id, on, provider) && has_matter(id, chat),
        !chat.attached && code::in_family(id) ==> !usable(enabled, on, provider, chat, n).contains(
            id,
        ),
        !chat.folded && reads_history(id) ==> !usable(enabled, on, provider, chat, n).contains(id),
    decreases n,
{
    let now = usable(enabled, on, provider, chat, n);
    if n > 0 {
        a_turn_offers_what_the_chat_has(enabled, on, provider, chat, n - 1, id);
        let before = usable(enabled, on, provider, chat, n - 1);
        let names = enabled.take(n);
        let fewer = enabled.take(n - 1);
        if names.contains(id) && passes(id, on, provider) && has_matter(id, chat) {
            let k = choose|k: int| 0 <= k < names.len() && names[k] == id;
            if k < n - 1 {
                assert(fewer[k] == id);
                let m = choose|m: int| 0 <= m < before.len() && before[m] == id;
                assert(now[m] == id);
            } else {
                assert(now[now.len() - 1] == id);
            }
        }
        if now.contains(id) {
            let m = choose|m: int| 0 <= m < now.len() && now[m] == id;
            if m < before.len() {
                assert(before[m] == id);
                let k = choose|k: int| 0 <= k < fewer.len() && fewer[k] == id;
                assert(names[k] == id);
            } else {
                assert(names[n - 1] == id);
            }
        }
    }
}

} // verus!
