//! The schemas of the tools: what a call may hold, and what is said of it.
//!
//! A schema is a list of fields. A field of a group stands behind the group's own
//! field and names it.

use vstd::prelude::*;
use crate::dialogue;
use crate::i18n::Locale;
use crate::sampling;
use crate::sampling::{CloudProvider, FieldKind};
use crate::text;

verus! {

/// What a field holds.
#[derive(Debug, Clone, Copy, PartialEq, Eq, Structural)]
pub enum Kind {
    Text,
    Number,
    Integer,
    /// An integer from one on.
    IntegerFrom1,
    /// The length of a dialogue: from two up to the cap on it.
    MessageCount,
    /// How often a dialogue is looked at: from one up to the cap on it.
    CheckpointCount,
    Flag,
    TextList,
    /// Two texts at least.
    TextListFrom2,
    /// One of the relations of notes.
    Relation,
    /// `a` or `b`.
    Speaker,
    /// `a`, `b` or `both`.
    NoteTarget,
    /// One of `none`, `minimal`, `low`, `medium`, `high`, `xhigh`.
    Effort,
    /// One of `low`, `medium`, `high`.
    Verbosity,
    /// Fields of its own.
    Group,
}

/// The fields: the tool, the group they are in, the name, what they hold, the key of
/// what is said of them, and whether they have to be there.
pub const PARAMS: [(&'static str, &'static str, &'static str, Kind, &'static str, bool); 96] = [
    ("attachment_read", "", "name", Kind::Text, "tool.attachment_read.param.name", true),
    ("attachment_read", "", "page", Kind::IntegerFrom1, "tool.attachment_read.param.page", false),
    ("attachment_search", "", "query", Kind::Text, "tool.attachment_search.param.query", true),
    ("attachment_search", "", "top_k", Kind::IntegerFrom1, "tool.attachment_search.param.top_k", false),
    ("calculate", "", "expression", Kind::Text, "tool.calculate.param.expression", true),
    ("call_subagent", "", "name", Kind::Text, "tool.call_subagent.param.name", false),
    ("call_subagent", "", "system_message", Kind::Text, "tool.call_subagent.param.system_message", true),
    ("call_subagent", "", "message", Kind::Text, "tool.call_subagent.param.message", true),
    ("chat_read", "", "chat", Kind::Text, "tool.chat_read.param.chat", true),
    ("chat_read", "", "page", Kind::IntegerFrom1, "tool.chat_read.param.page", false),
    ("chat_search", "", "query", Kind::Text, "tool.chat_search.param.query", true),
    ("chat_search", "", "top_k", Kind::IntegerFrom1, "tool.chat_search.param.top_k", false),
    ("code_edit", "", "path", Kind::Text, "tool.code.param.path", true),
    ("code_edit", "", "old_string", Kind::Text, "tool.code.param.old_string", true),
    ("code_edit", "", "new_string", Kind::Text, "tool.code.param.new_string", true),
    ("code_edit", "", "replace_all", Kind::Flag, "tool.code.param.replace_all", false),
    ("code_grep", "", "pattern", Kind::Text, "tool.code.param.pattern", true),
    ("code_grep", "", "path", Kind::Text, "tool.code.param.grep_dir", false),
    ("code_grep", "", "glob", Kind::Text, "tool.code.param.glob", false),
    ("code_list", "", "path", Kind::Text, "tool.code.param.dir", false),
    ("code_list", "", "depth", Kind::Integer, "tool.code.param.depth", false),
    ("code_read", "", "path", Kind::Text, "tool.code.param.path", true),
    ("code_read", "", "offset", Kind::Integer, "tool.code.param.offset", false),
    ("code_read", "", "limit", Kind::Integer, "tool.code.param.limit", false),
    ("code_write", "", "path", Kind::Text, "tool.code.param.path", true),
    ("code_write", "", "content", Kind::Text, "tool.code.param.content", true),
    ("current_time", "", "format", Kind::Text, "tool.current_time.param.format", false),
    ("dialogue_note", "", "to", Kind::NoteTarget, "tool.run_dialogue.verdict.note_to", true),
    ("dialogue_note", "", "text", Kind::Text, "", true),
    ("dialogue_retry", "", "note", Kind::Text, "tool.run_dialogue.verdict.retry_note", false),
    ("dialogue_rewrite", "", "text", Kind::Text, "", true),
    ("dialogue_stop", "", "reason", Kind::Text, "tool.run_dialogue.verdict.stop_reason", true),
    ("dialogue_stop", "", "summary", Kind::Text, "tool.run_dialogue.verdict.stop_summary", false),
    ("fetch_url", "", "url", Kind::Text, "tool.fetch_url.param.url", true),
    ("fetch_url", "", "focus", Kind::Text, "tool.fetch_url.param.focus", false),
    ("fetch_url", "", "summarize", Kind::Flag, "tool.fetch_url.param.summarize", false),
    ("fs_list", "", "path", Kind::Text, "tool.fs.param.dir_path", true),
    ("fs_read", "", "path", Kind::Text, "tool.fs.param.file_path", true),
    ("fs_write", "", "path", Kind::Text, "tool.fs.param.file_path", true),
    ("fs_write", "", "content", Kind::Text, "tool.fs_write.param.content", true),
    ("fs_write", "", "append", Kind::Flag, "tool.fs_write.param.append", false),
    ("history_read", "", "page", Kind::IntegerFrom1, "tool.history_read.param.page", false),
    ("history_search", "", "query", Kind::Text, "tool.history_search.param.query", true),
    ("history_search", "", "top_k", Kind::IntegerFrom1, "tool.history_search.param.top_k", false),
    ("note_cite_source", "", "note_id", Kind::Text, "tool.note_cite_source.param.note_id", true),
    ("note_cite_source", "", "source", Kind::Text, "tool.note_cite_source.param.source", true),
    ("note_link", "", "from_id", Kind::Text, "tool.note_link.param.from_id", true),
    ("note_link", "", "to_id", Kind::Text, "tool.note_link.param.to_id", true),
    ("note_link", "", "relation", Kind::Relation, "tool.note_link.param.relation", true),
    ("note_merge", "", "ids", Kind::TextListFrom2, "tool.note_merge.param.ids", true),
    ("note_merge", "", "content", Kind::Text, "tool.note_merge.param.content", true),
    ("note_neighbors", "", "id", Kind::Text, "tool.note_neighbors.param.id", true),
    ("note_neighbors", "", "relation", Kind::Relation, "tool.note_neighbors.param.relation", false),
    ("note_recall", "", "query", Kind::Text, "tool.note_recall.param.query", false),
    ("note_recall", "", "tags", Kind::TextList, "", false),
    ("note_recall", "", "limit", Kind::IntegerFrom1, "", false),
    ("note_revise", "", "id", Kind::Text, "tool.note_revise.param.id", true),
    ("note_revise", "", "content", Kind::Text, "tool.note_revise.param.content", true),
    ("note_save", "", "content", Kind::Text, "tool.note_save.param.content", true),
    ("note_save", "", "tags", Kind::TextList, "", false),
    ("note_supersede", "", "old_id", Kind::Text, "tool.note_supersede.param.old_id", true),
    ("note_supersede", "", "content", Kind::Text, "tool.note_supersede.param.content", true),
    ("rag_add", "", "text", Kind::Text, "", true),
    ("rag_add", "", "source", Kind::Text, "", false),
    ("run_dialogue", "", "a", Kind::Group, "tool.run_dialogue.param.a", true),
    ("run_dialogue", "a", "name", Kind::Text, "tool.run_dialogue.param.persona_name", false),
    ("run_dialogue", "a", "system_message", Kind::Text, "tool.run_dialogue.param.persona_system", true),
    ("run_dialogue", "", "b", Kind::Group, "tool.run_dialogue.param.b", true),
    ("run_dialogue", "b", "name", Kind::Text, "tool.run_dialogue.param.persona_name", false),
    ("run_dialogue", "b", "system_message", Kind::Text, "tool.run_dialogue.param.persona_system", true),
    ("run_dialogue", "", "opening", Kind::Group, "tool.run_dialogue.param.opening", true),
    ("run_dialogue", "opening", "speaker", Kind::Speaker, "tool.run_dialogue.param.opening_speaker", false),
    ("run_dialogue", "opening", "text", Kind::Text, "", true),
    ("run_dialogue", "", "scene", Kind::Text, "tool.run_dialogue.param.scene", false),
    ("run_dialogue", "", "direction", Kind::Text, "tool.run_dialogue.param.direction", false),
    ("run_dialogue", "", "max_messages", Kind::MessageCount, "tool.run_dialogue.param.max_messages", false),
    ("run_dialogue", "", "moderate_every", Kind::CheckpointCount, "tool.run_dialogue.param.moderate_every", false),
    ("set_system_message", "", "system_message", Kind::Text, "", true),
    ("update_self_model", "", "summary", Kind::Text, "", false),
    ("update_self_model", "", "add_goals", Kind::TextList, "", false),
    ("update_self_model", "", "complete_goals", Kind::TextList, "", false),
    ("update_self_model", "", "abandon_goals", Kind::TextList, "", false),
    ("update_user_model", "", "add_traits", Kind::TextList, "", false),
    ("update_user_model", "", "remove_traits", Kind::TextList, "", false),
    ("update_user_model", "", "add_interests", Kind::TextList, "", false),
    ("update_user_model", "", "remove_interests", Kind::TextList, "", false),
    ("update_user_model", "", "relationship_dynamic", Kind::Text, "", false),
    ("update_user_model", "", "note", Kind::Text, "", false),
    ("web_search", "", "query", Kind::Text, "", true),
    ("web_search", "", "max_results", Kind::Integer, "", false),
    ("web_search", "", "fetch_content", Kind::Flag, "", false),
    ("youtube_watch", "", "url", Kind::Text, "", true),
    ("youtube_watch", "", "focus", Kind::Text, "", false),
    ("youtube_watch", "", "start", Kind::Text, "", false),
    ("youtube_watch", "", "end", Kind::Text, "", false),
    ("youtube_watch", "", "transcript", Kind::Flag, "", false),
];

/// How many fields the table has.
pub const PARAM_COUNT: usize = 96;

/// A field of a schema.
#[derive(Debug)]
pub struct Param {
    /// The group that the field is in; empty where it is in none.
    pub parent: String,
    pub name: String,
    pub kind: Kind,
    /// What is said of the field.
    pub about: Option<String>,
    pub required: bool,
}

/// What a [`Param`] holds.
pub struct ParamView {
    pub parent: Seq<char>,
    pub name: Seq<char>,
    pub kind: Kind,
    pub about: Option<Seq<char>>,
    pub required: bool,
}

impl View for Param {
    type V = ParamView;

    open spec fn view(&self) -> ParamView {
        ParamView {
            parent: self.parent@,
            name: self.name@,
            kind: self.kind,
            about: crate::json::opt_str(self.about),
            required: self.required,
        }
    }
}

pub open spec fn param_views(v: Seq<Param>) -> Seq<ParamView> {
    v.map_values(|p: Param| p@)
}

/// The schema of a tool's arguments.
#[derive(Debug)]
pub enum Parameters {
    Fields(Vec<Param>),
    /// A schema that came from elsewhere, as JSON.
    Given(String),
}

/// What an engine is told of a tool.
#[derive(Debug)]
pub struct ToolSchema {
    pub name: String,
    pub description: String,
    pub parameters: Parameters,
}

/// What is said of a field, where there is a key for it.
pub open spec fn about_text(key: Seq<char>, loc: Locale) -> Option<Seq<char>> {
    if key.len() == 0 {
        None
    } else {
        Some(loc.text(key))
    }
}

/// A row of the table as a field.
pub open spec fn row_param(i: int, loc: Locale) -> ParamView {
    ParamView {
        parent: PARAMS@[i].1@,
        name: PARAMS@[i].2@,
        kind: PARAMS@[i].3,
        about: about_text(PARAMS@[i].4@, loc),
        required: PARAMS@[i].5,
    }
}

/// The fields of a tool, among the first `n` rows.
pub open spec fn fields_of(tool: Seq<char>, loc: Locale, n: int) -> Seq<ParamView>
    decreases n,
{
    if n <= 0 {
        Seq::empty()
    } else if PARAMS@[n - 1].0@ == tool {
        fields_of(tool, loc, n - 1).push(row_param(n - 1, loc))
    } else {
        fields_of(tool, loc, n - 1)
    }
}

/// The rows under which a tool stands in the table: the dialogue in the background
/// takes what the one in the foreground takes.
pub open spec fn rows_for(tool: Seq<char>) -> Seq<char> {
    if tool == dialogue::START_DIALOGUE_ID@ {
        dialogue::RUN_DIALOGUE_ID@
    } else {
        tool
    }
}

fn make_param(i: usize, loc: &Locale) -> (r: Param)
    requires
        i < PARAM_COUNT,
    ensures
        r@ == row_param(i as int, *loc),
{
    let row: (&'static str, &'static str, &'static str, Kind, &'static str, bool) = PARAMS[i];
    let about: Option<String> = if row.4.is_empty() {
        None
    } else {
        Some(text::owned(loc.t(row.4)))
    };
    Param {
        parent: text::owned(row.1),
        name: text::owned(row.2),
        kind: row.3,
        about,
        required: row.5,
    }
}

/// The fields of a tool.
pub fn parameters(tool: &str, loc: &Locale) -> (r: Vec<Param>)
    ensures
        param_views(r@) == fields_of(rows_for(tool@), *loc, PARAM_COUNT as int),
{
    let rows: &str = if text::same(tool, dialogue::START_DIALOGUE_ID) {
        dialogue::RUN_DIALOGUE_ID
    } else {
        tool
    };
    let mut r: Vec<Param> = Vec::new();
    let mut i: usize = 0;
    assert(param_views(r@) =~= Seq::<ParamView>::empty());
    while i < PARAM_COUNT
        invariant
            i <= PARAM_COUNT,
            PARAMS@.len() == PARAM_COUNT,
            rows@ == rows_for(tool@),
            param_views(r@) == fields_of(rows@, *loc, i as int),
        decreases PARAM_COUNT - i,
    {
        if text::same(PARAMS[i].0, rows) {
            let ghost before = param_views(r@);
            let p: Param = make_param(i, loc);
            r.push(p);
            assert(param_views(r@) =~= before.push(p@));
        }
        i = i + 1;
    }
    r
}

// ---------- sampling ----------

/// What a sampling field holds.
pub open spec fn kind_of(k: FieldKind) -> Kind {
    match k {
        FieldKind::Number => Kind::Number,
        FieldKind::Integer => Kind::Integer,
        FieldKind::TextList => Kind::TextList,
        FieldKind::Flag => Kind::Flag,
        FieldKind::Effort => Kind::Effort,
        FieldKind::Verbosity => Kind::Verbosity,
    }
}

fn kind_for(k: FieldKind) -> (r: Kind)
    ensures
        r == kind_of(k),
{
    match k {
        FieldKind::Number => Kind::Number,
        FieldKind::Integer => Kind::Integer,
        FieldKind::TextList => Kind::TextList,
        FieldKind::Flag => Kind::Flag,
        FieldKind::Effort => Kind::Effort,
        FieldKind::Verbosity => Kind::Verbosity,
    }
}

/// The sampling fields that the engine takes, among the first `n`.
pub open spec fn sampling_fields(provider: Option<CloudProvider>, n: int) -> Seq<ParamView>
    decreases n,
{
    if n <= 0 {
        Seq::empty()
    } else if sampling::is_supported(provider, sampling::FIELDS@[n - 1].0@) {
        sampling_fields(provider, n - 1).push(
            ParamView {
                parent: Seq::empty(),
                name: sampling::FIELDS@[n - 1].0@,
                kind: kind_of(sampling::FIELDS@[n - 1].1),
                about: None,
                required: false,
            },
        )
    } else {
        sampling_fields(provider, n - 1)
    }
}

/// The fields of `set_sampling`: those that the engine takes, none of which has to be
/// there.
pub fn sampling_parameters(provider: Option<CloudProvider>) -> (r: Vec<Param>)
    ensures
        param_views(r@) == sampling_fields(provider, sampling::SETTABLE_COUNT as int),
{
    let mut r: Vec<Param> = Vec::new();
    let mut i: usize = 0;
    assert(param_views(r@) =~= Seq::<ParamView>::empty());
    while i < sampling::SETTABLE_COUNT
        invariant
            i <= sampling::SETTABLE_COUNT,
            sampling::FIELDS@.len() == sampling::FIELD_COUNT,
            param_views(r@) == sampling_fields(provider, i as int),
        decreases sampling::SETTABLE_COUNT - i,
    {
        let row: (&'static str, FieldKind) = sampling::FIELDS[i];
        if sampling::supports(provider, row.0) {
            let ghost before = param_views(r@);
            let p: Param = Param {
                parent: String::new(),
                name: text::owned(row.0),
                kind: kind_for(row.1),
                about: None,
                required: false,
            };
            r.push(p);
            assert(p.parent@ =~= Seq::<char>::empty());
            assert(param_views(r@) =~= before.push(p@));
        }
        i = i + 1;
    }
    r
}

// ---------- the director of a dialogue ----------

/// The tools by which the director of a dialogue speaks, and the keys of what they
/// are for.
pub const VERDICTS: [(&'static str, &'static str); 5] = [
    ("dialogue_continue", "tool.run_dialogue.verdict.continue"),
    ("dialogue_stop", "tool.run_dialogue.verdict.stop"),
    ("dialogue_note", "tool.run_dialogue.verdict.note"),
    ("dialogue_retry", "tool.run_dialogue.verdict.retry"),
    ("dialogue_rewrite", "tool.run_dialogue.verdict.rewrite"),
];

/// The key of what is said of the addressee of a note.
pub const NOTE_TO_KEY: &'static str = "tool.run_dialogue.verdict.note_to";

/// A field of the director's tools: whom a note goes to is said by name.
pub open spec fn verdict_param(p: ParamView, a: Seq<char>, b: Seq<char>, loc: Locale) -> ParamView {
    if p.kind == Kind::NoteTarget {
        ParamView { about: Some(loc.text2(NOTE_TO_KEY@, "a"@, a, "b"@, b)), ..p }
    } else {
        p
    }
}

/// What a schema of the director holds.
pub open spec fn is_verdict_schema(
    s: ToolSchema,
    i: int,
    a: Seq<char>,
    b: Seq<char>,
    loc: Locale,
) -> bool {
    &&& s.name@ == VERDICTS@[i].0@
    &&& s.description@ == loc.text(VERDICTS@[i].1@)
    &&& s.parameters matches Parameters::Fields(f) && param_views(f@) == fields_of(
        rows_for(VERDICTS@[i].0@),
        loc,
        PARAM_COUNT as int,
    ).map_values(|p: ParamView| verdict_param(p, a, b, loc))
}

fn name_participants(params: Vec<Param>, a: &str, b: &str, loc: &Locale) -> (r: Vec<Param>)
    ensures
        param_views(r@) == param_views(params@).map_values(
            |p: ParamView| verdict_param(p, a@, b@, *loc),
        ),
{
    let ghost all = param_views(params@).map_values(
        |p: ParamView| verdict_param(p, a@, b@, *loc),
    );
    let mut r: Vec<Param> = Vec::new();
    let mut i: usize = 0;
    assert(param_views(r@) =~= all.take(0));
    while i < params.len()
        invariant
            i <= params.len(),
            all == param_views(params@).map_values(
                |p: ParamView| verdict_param(p, a@, b@, *loc),
            ),
            param_views(r@) =~= all.take(i as int),
        decreases params.len() - i,
    {
        let p: &Param = &params[i];
        let about: Option<String> = if p.kind == Kind::NoteTarget {
            Some(loc.tf2(NOTE_TO_KEY, "a", a, "b", b))
        } else {
            sampling::copy_value(&p.about)
        };
        let q: Param = Param {
            parent: p.parent.clone(),
            name: p.name.clone(),
            kind: p.kind,
            about,
            required: p.required,
        };
        assert(all[i as int] == verdict_param(p@, a@, b@, *loc));
        assert(q@ == verdict_param(p@, a@, b@, *loc));
        let ghost before = param_views(r@);
        r.push(q);
        assert(param_views(r@) =~= before.push(q@));
        i = i + 1;
    }
    assert(all.take(i as int) =~= all);
    r
}

/// The schemas of the tools by which the director of a dialogue speaks. They go along
/// with its requests only; no profile has them.
pub fn verdict_tools(loc: &Locale, a_label: &str, b_label: &str) -> (r: Vec<ToolSchema>)
    ensures
        r@.len() == 5,
        forall|i: int|
            0 <= i < 5 ==> is_verdict_schema(#[trigger] r@[i], i, a_label@, b_label@, *loc),
{
    let mut r: Vec<ToolSchema> = Vec::new();
    let mut i: usize = 0;
    while i < 5
        invariant
            i <= 5,
            VERDICTS@.len() == 5,
            r@.len() == i,
            forall|j: int|
                0 <= j < i ==> is_verdict_schema(#[trigger] r@[j], j, a_label@, b_label@, *loc),
        decreases 5 - i,
    {
        let row: (&'static str, &'static str) = VERDICTS[i];
        let fields: Vec<Param> = name_participants(parameters(row.0, loc), a_label, b_label, loc);
        let s: ToolSchema = ToolSchema {
            name: text::owned(row.0),
            description: text::owned(loc.t(row.1)),
            parameters: Parameters::Fields(fields),
        };
        assert(is_verdict_schema(s, i as int, a_label@, b_label@, *loc));
        r.push(s);
        i = i + 1;
    }
    r
}

} // verus!
