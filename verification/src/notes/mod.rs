//! Notes: the assistant's memory of a profile, with links between notes, their
//! revisions, and the notes about itself, which stay apart from the rest.

use vstd::prelude::*;
use crate::i18n::Locale;
use crate::ids;
use crate::json::Json;
use crate::text;

pub mod cite;
pub mod edit;
pub mod graph;
pub mod laws;
pub mod overview;
pub mod recall;
pub mod recall_laws;
pub mod save;
pub mod self_notes;

verus! {

broadcast use text::views_push;

pub const NOTE_SAVE_ID: &'static str = "note_save";

pub const NOTE_RECALL_ID: &'static str = "note_recall";

pub const NOTE_REVISE_ID: &'static str = "note_revise";

pub const NOTE_LINK_ID: &'static str = "note_link";

pub const NOTE_NEIGHBORS_ID: &'static str = "note_neighbors";

pub const NOTE_SUPERSEDE_ID: &'static str = "note_supersede";

pub const NOTE_MERGE_ID: &'static str = "note_merge";

pub const CONSOLIDATE_NOTES_ID: &'static str = "consolidate_notes";

pub const NOTE_CITE_SOURCE_ID: &'static str = "note_cite_source";

/// How many items a section of the consolidation overview shows.
pub const CONSOLIDATE_LIST_CAP: usize = 8;

/// How one note may bear on another.
pub const RELATIONS: [&'static str; 4] = ["supports", "contradicts", "refines", "relates"];

/// How many notes a recall gives unless it is told otherwise.
pub const DEFAULT_RECALL: u64 = 5;

/// How many notes without a vector are embedded at a time.
pub const NOTE_BACKFILL_BATCH: usize = 32;

/// How many related notes go with a recall.
pub const RELATED_IN_RECALL: usize = 5;

/// How many of the notes recalled are looked at for related ones.
pub const RELATED_HITS: usize = 3;

/// The tag of a note about the assistant itself. Such notes are kept from the
/// recall of the others, and from their overview.
pub const SELF_NOTE_TAG: &'static str = "@self";

/// A note.
#[derive(Debug)]
pub struct Note {
    pub id: u128,
    pub content: String,
    pub tags: Vec<String>,
}

/// What a [`Note`] holds.
#[verifier::ext_equal]
pub struct NoteView {
    pub id: u128,
    pub content: Seq<char>,
    pub tags: Seq<Seq<char>>,
}

impl View for Note {
    type V = NoteView;

    open spec fn view(&self) -> NoteView {
        NoteView { id: self.id, content: self.content@, tags: text::views(self.tags@) }
    }
}

pub open spec fn note_views(v: Seq<Note>) -> Seq<NoteView> {
    v.map_values(|n: Note| n@)
}

pub broadcast proof fn note_views_push(v: Seq<Note>, n: Note)
    ensures
        #[trigger] note_views(v.push(n)) == note_views(v).push(n@),
{
    assert(note_views(v.push(n)) =~= note_views(v).push(n@));
}

/// A copy of a list of texts.
pub fn copy_texts(v: &Vec<String>) -> (r: Vec<String>)
    ensures
        text::views(r@) == text::views(v@),
{
    let mut r: Vec<String> = Vec::new();
    let mut i: usize = 0;
    while i < v.len()
        invariant
            i <= v.len(),
            text::views(r@) =~= text::views(v@).take(i as int),
        decreases v.len() - i,
    {
        r.push(v[i].clone());
        i = i + 1;
    }
    assert(text::views(v@).take(i as int) =~= text::views(v@));
    r
}

impl Note {
    /// A copy.
    pub fn copied(&self) -> (r: Note)
        ensures
            r@ == self@,
    {
        Note { id: self.id, content: self.content.clone(), tags: copy_texts(&self.tags) }
    }
}

impl NoteView {
    /// The note is about the assistant itself.
    pub open spec fn is_self(self) -> bool {
        self.tags.contains(SELF_NOTE_TAG@)
    }
}

/// Whether a list of texts has this one.
pub fn has_text(v: &Vec<String>, s: &str) -> (r: bool)
    ensures
        r == text::views(v@).contains(s@),
{
    let ghost all = text::views(v@);
    let mut i: usize = 0;
    while i < v.len()
        invariant
            i <= v.len(),
            all == text::views(v@),
            forall|j: int| 0 <= j < i ==> all[j] != s@,
        decreases v.len() - i,
    {
        assert(all[i as int] == v@[i as int]@);
        if text::same(v[i].as_str(), s) {
            return true;
        }
        i = i + 1;
    }
    false
}

/// Whether a note is about the assistant itself.
pub fn is_self_note(note: &Note) -> (r: bool)
    ensures
        r == note@.is_self(),
{
    has_text(&note.tags, SELF_NOTE_TAG)
}

/// The string under `key` without its margins; empty where there is none.
pub open spec fn raw_id(args: crate::json::JsonView, key: Seq<char>) -> Seq<char> {
    match args.str_at(key) {
        Some(s) => text::trimmed(s),
        None => text::trimmed(Seq::empty()),
    }
}

/// The identifier under `key`.
pub fn parse_id(args: &Json, key: &str, loc: &Locale) -> (r: Result<u128, String>)
    ensures
        match r {
            Ok(id) => ids::id_of(raw_id(args@, key@)) == Some(id),
            Err(e) => ids::id_of(raw_id(args@, key@)) is None && e@ == loc.text2(
                "notes.err.bad_id_field"@,
                "key"@,
                key@,
                "raw"@,
                raw_id(args@, key@),
            ),
        },
{
    let raw: String = match args.get_str(key) {
        Some(s) => text::trim(s.as_str()),
        None => text::trim(String::new().as_str()),
    };
    read_id(raw.as_str(), ids::parse(raw.as_str()), key, loc)
}

/// The identifier that was read from `raw` under `key`; an error where it is none.
pub fn read_id(raw: &str, read: Option<u128>, key: &str, loc: &Locale) -> (r: Result<u128, String>)
    ensures
        match r {
            Ok(id) => read == Some(id),
            Err(e) => read is None && e@ == loc.text2(
                "notes.err.bad_id_field"@,
                "key"@,
                key@,
                "raw"@,
                raw@,
            ),
        },
{
    match read {
        Some(id) => Ok(id),
        None => Err(loc.tf2("notes.err.bad_id_field", "key", key, "raw", raw)),
    }
}

/// A text without its margins, cut after `n` characters with an ellipsis as the last.
pub open spec fn clipped(s: Seq<char>, n: nat) -> Seq<char> {
    let t = text::trimmed(s);
    if t.len() <= n {
        t
    } else {
        t.take(
            if n == 0 {
                0
            } else {
                n - 1
            },
        ) + "…"@
    }
}

/// A text without its margins, cut after `n` characters.
pub fn clip(s: &str, n: usize) -> (r: String)
    ensures
        r@ == clipped(s@, n as nat),
{
    let t: String = text::trim(s);
    if text::length(t.as_str()) <= n {
        t
    } else {
        let keep: usize = if n == 0 {
            0
        } else {
            n - 1
        };
        text::cat2(text::head(t.as_str(), keep).as_str(), "…")
    }
}

/// The tags among the arguments: what is no string is passed over.
pub fn parse_tags(args: &Json) -> (r: Vec<String>)
    ensures
        text::views(r@) == args@.strings_at("tags"@),
{
    args.get_strings("tags")
}

/// A content argument: what is left without its margins.
pub open spec fn content_arg(args: crate::json::JsonView) -> Option<Seq<char>> {
    match args.str_at("content"@) {
        Some(s) => Some(text::trimmed(s)),
        None => None,
    }
}

/// A content argument: it must be a string with more than white space in it.
pub fn parse_content(args: &Json, loc: &Locale) -> (r: Result<String, String>)
    ensures
        match r {
            Ok(c) => content_arg(args@) == Some(c@) && c@.len() > 0,
            Err(e) => {
                ||| content_arg(args@) is None && e@ == loc.text("notes.err.content_string"@)
                ||| content_arg(args@) matches Some(c) && c.len() == 0 && e@ == loc.text(
                    "notes.err.content_empty"@,
                )
            },
        },
{
    match args.get_str("content") {
        None => Err(text::owned(loc.t("notes.err.content_string"))),
        Some(s) => {
            let c: String = text::trim(s.as_str());
            if c.as_str().is_empty() {
                Err(text::owned(loc.t("notes.err.content_empty")))
            } else {
                Ok(c)
            }
        },
    }
}

/// The relation is one of the four.
pub open spec fn is_relation(r: Seq<char>) -> bool {
    exists|i: int| 0 <= i < RELATIONS@.len() && (#[trigger] RELATIONS@[i])@ == r
}

/// Whether the relation is one of the four.
pub fn known_relation(r: &str) -> (b: bool)
    ensures
        b == is_relation(r@),
{
    let mut i: usize = 0;
    while i < RELATIONS.len()
        invariant
            i <= RELATIONS@.len(),
            forall|j: int| 0 <= j < i ==> (#[trigger] RELATIONS@[j])@ != r@,
        decreases RELATIONS@.len() - i,
    {
        if text::same(RELATIONS[i], r) {
            assert(RELATIONS@[i as int]@ == r@);
            return true;
        }
        i = i + 1;
    }
    false
}

/// The four relations as an error lists them.
pub open spec fn relations_listed() -> Seq<char> {
    "[\"supports\", \"contradicts\", \"refines\", \"relates\"]"@
}

/// What is said of a relation that is none of the four.
pub fn unknown_relation(relation: &str, loc: &Locale) -> (r: String)
    ensures
        r@ == loc.text2(
            "notes.err.unknown_relation"@,
            "relation"@,
            relation@,
            "allowed"@,
            relations_listed(),
        ),
{
    loc.tf2(
        "notes.err.unknown_relation",
        "relation",
        relation,
        "allowed",
        "[\"supports\", \"contradicts\", \"refines\", \"relates\"]",
    )
}

/// What is said of a note that is not there.
pub fn note_not_found(id: u128, loc: &Locale) -> (r: crate::outcome::ToolOutcome)
    ensures
        r.says(loc.text1("notes.result.not_found"@, "id"@, ids::hyphenated(id))),
{
    let shown: String = ids::show(id);
    crate::outcome::ToolOutcome::text(loc.tf1("notes.result.not_found", "id", shown.as_str()))
}

} // verus!
