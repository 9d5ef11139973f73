//! `note_recall`: finding notes, with what is linked to them and what they cite.

use vstd::prelude::*;
use crate::i18n::Locale;
use crate::ids;
use crate::json;
use crate::json::Json;
use crate::notes;
use crate::notes::{Note, NoteView};
use crate::outcome::ToolOutcome;
use crate::text;

verus! {

broadcast use {text::views_push, notes::note_views_push};

/// `note_recall`.
pub struct NoteRecall;

/// What a recall is asked for.
#[derive(Debug)]
pub struct RecallArgs {
    pub query: Option<String>,
    pub tags: Vec<String>,
    pub limit: Option<u64>,
}

impl NoteRecall {
    /// Reads the arguments of a recall.
    pub fn arguments(&self, args: &Json) -> (r: RecallArgs)
        ensures
            json::opt_str(r.query) == (match args@.str_at("query"@) {
                Some(q) if q.len() > 0 => Some(q),
                _ => None,
            }),
            text::views(r.tags@) == args@.strings_at("tags"@),
            r.limit == args@.uint_at("limit"@),
    {
        let query: Option<String> = match args.get_str("query") {
            Some(q) => if q.as_str().is_empty() {
                None
            } else {
                Some(q)
            },
            None => None,
        };
        RecallArgs { query, tags: notes::parse_tags(args), limit: args.get_uint("limit") }
    }
}

// ---------- which notes ----------

/// The note may be shown: one about the assistant itself only where that is wanted.
pub open spec fn may_show(n: NoteView, with_self: bool) -> bool {
    with_self || !n.is_self()
}

/// The note has every one of the tags.
pub open spec fn has_tags(n: NoteView, tags: Seq<Seq<char>>) -> bool {
    forall|i: int| 0 <= i < tags.len() ==> n.tags.contains(#[trigger] tags[i])
}

/// The notes that may be shown, in the order they came in.
pub open spec fn shown_notes(notes: Seq<NoteView>, tags: Seq<Seq<char>>, with_self: bool) -> Seq<
    NoteView,
>
    decreases notes.len(),
{
    if notes.len() == 0 {
        Seq::empty()
    } else {
        let before = shown_notes(notes.drop_last(), tags, with_self);
        if may_show(notes.last(), with_self) && has_tags(notes.last(), tags) {
            before.push(notes.last())
        } else {
            before
        }
    }
}

/// The first `n` of the notes.
pub open spec fn first_notes(notes: Seq<NoteView>, n: int) -> Seq<NoteView> {
    if notes.len() <= n {
        notes
    } else {
        notes.take(n)
    }
}

fn tagged(n: &Note, tags: &Vec<String>) -> (r: bool)
    ensures
        r == has_tags(n@, text::views(tags@)),
{
    let ghost all = text::views(tags@);
    let mut i: usize = 0;
    while i < tags.len()
        invariant
            i <= tags.len(),
            all == text::views(tags@),
            forall|j: int| 0 <= j < i ==> n@.tags.contains(#[trigger] all[j]),
        decreases tags.len() - i,
    {
        assert(all[i as int] == tags@[i as int]@);
        if !notes::has_text(&n.tags, tags[i].as_str()) {
            return false;
        }
        i = i + 1;
    }
    true
}

fn filter_notes(found: &Vec<Note>, tags: &Vec<String>, with_self: bool, limit: Option<u64>) -> (r:
    Vec<Note>)
    ensures
        notes::note_views(r@) == (match limit {
            Some(n) => first_notes(
                shown_notes(notes::note_views(found@), text::views(tags@), with_self),
                n as int,
            ),
            None => shown_notes(notes::note_views(found@), text::views(tags@), with_self),
        }),
{
    let ghost all = notes::note_views(found@);
    let ghost wanted = text::views(tags@);
    let mut r: Vec<Note> = Vec::new();
    let mut i: usize = 0;
    assert(all.take(0) =~= Seq::<NoteView>::empty());
    assert(notes::note_views(r@) =~= Seq::<NoteView>::empty());
    while i < found.len()
        invariant
            i <= found.len(),
            all == notes::note_views(found@),
            wanted == text::views(tags@),
            notes::note_views(r@) =~= (match limit {
                Some(n) => first_notes(
                    shown_notes(all.take(i as int), wanted, with_self),
                    n as int,
                ),
                None => shown_notes(all.take(i as int), wanted, with_self),
            }),
        decreases found.len() - i,
    {
        assert(all.take(i + 1).drop_last() =~= all.take(i as int));
        assert(all.take(i + 1).last() == found@[i as int]@);
        assert(notes::note_views(r@).len() == r@.len());
        let room: bool = match limit {
            Some(n) => (r.len() as u64) < n,
            None => true,
        };
        if (with_self || !notes::is_self_note(&found[i])) && tagged(&found[i], tags) && room {
            r.push(found[i].copied());
        }
        i = i + 1;
    }
    assert(all.take(i as int) =~= all);
    r
}

/// How many notes a recall gives.
pub open spec fn wanted_notes(limit: Option<u64>) -> u64 {
    match limit {
        Some(n) => n,
        None => notes::DEFAULT_RECALL,
    }
}

/// The notes of a recall by words: those about the assistant itself go before the
/// limit is applied, so that they take no place in it.
pub fn list_user_notes(found: &Vec<Note>, with_self: bool, limit: Option<u64>) -> (r: Vec<Note>)
    ensures
        notes::note_views(r@) == first_notes(
            shown_notes(notes::note_views(found@), Seq::empty(), with_self),
            wanted_notes(limit) as int,
        ),
{
    let want: u64 = match limit {
        Some(n) => n,
        None => notes::DEFAULT_RECALL,
    };
    let none: Vec<String> = Vec::new();
    assert(text::views(none@) =~= Seq::<Seq<char>>::empty());
    filter_notes(found, &none, with_self, Some(want))
}

/// All of the notes but those about the assistant itself.
pub(crate) fn without_self(found: &Vec<Note>) -> (r: Vec<Note>)
    ensures
        notes::note_views(r@) == shown_notes(notes::note_views(found@), Seq::empty(), false),
{
    let none: Vec<String> = Vec::new();
    assert(text::views(none@) =~= Seq::<Seq<char>>::empty());
    filter_notes(found, &none, false, None)
}

/// How many candidates a recall by meaning asks for: some to spare, as tags and the
/// notes about the assistant itself thin them out.
pub fn candidates(limit: Option<u64>) -> (r: u64)
    ensures
        r == if wanted_notes(limit) < 30 {
            30
        } else {
            wanted_notes(limit)
        },
{
    let want: u64 = match limit {
        Some(n) => n,
        None => notes::DEFAULT_RECALL,
    };
    if want < 30 {
        30
    } else {
        want
    }
}

/// The notes of a recall by meaning, by the hits in order of likeness; none where
/// nothing is left, so that the recall by words has its turn.
pub fn semantic_recall(
    hits: &Vec<Note>,
    tags: &Vec<String>,
    with_self: bool,
    limit: Option<u64>,
) -> (r: Option<Vec<Note>>)
    ensures
        ({
            let left = first_notes(
                shown_notes(notes::note_views(hits@), text::views(tags@), with_self),
                wanted_notes(limit) as int,
            );
            match r {
                Some(v) => left.len() > 0 && notes::note_views(v@) == left,
                None => left.len() == 0,
            }
        }),
        r matches Some(v) ==> forall|k: int, i: int|
            0 <= k < v@.len() && 0 <= i < tags@.len() ==> text::views(
                (#[trigger] v@[k]).tags@,
            ).contains((#[trigger] tags@[i])@),
        r is None ==> wanted_notes(limit) == 0 || forall|k: int|
            0 <= k < hits@.len() ==> !with_self && text::views(
                (#[trigger] hits@[k]).tags@,
            ).contains(notes::SELF_NOTE_TAG@) || exists|i: int|
                0 <= i < tags@.len() && !text::views(hits@[k].tags@).contains(
                    (#[trigger] tags@[i])@,
                ),
{
    let want: u64 = match limit {
        Some(n) => n,
        None => notes::DEFAULT_RECALL,
    };
    let r: Vec<Note> = filter_notes(hits, tags, with_self, Some(want));
    assert(notes::note_views(r@).len() == r@.len());
    proof {
        let all = notes::note_views(hits@);
        let asked = text::views(tags@);
        assert forall|k: int, i: int| 0 <= k < r@.len() && 0 <= i < tags@.len() implies text::views(
            (#[trigger] r@[k]).tags@,
        ).contains((#[trigger] tags@[i])@) by {
            let n = notes::note_views(r@)[k];
            assert(n == r@[k]@);
            assert(shown_notes(all, asked, with_self)[k] == n);
            shown_are_allowed(all, asked, with_self, n);
            assert(asked[i] == tags@[i]@);
        }
        if r@.len() == 0 && want > 0 {
            assert forall|k: int| 0 <= k < hits@.len() implies !with_self && text::views(
                (#[trigger] hits@[k]).tags@,
            ).contains(notes::SELF_NOTE_TAG@) || exists|i: int|
                0 <= i < tags@.len() && !text::views(hits@[k].tags@).contains(
                    (#[trigger] tags@[i])@,
                ) by {
                assert(all[k] == hits@[k]@);
                if may_show(all[k], with_self) && has_tags(all[k], asked) {
                    allowed_are_shown(all, asked, with_self, k);
                } else if may_show(all[k], with_self) {
                    let i = choose|i: int|
                        0 <= i < asked.len() && !all[k].tags.contains(#[trigger] asked[i]);
                    assert(asked[i] == tags@[i]@);
                }
            }
        }
    }
    if r.len() == 0 {
        None
    } else {
        Some(r)
    }
}

pub(crate) proof fn shown_are_allowed(
    notes: Seq<NoteView>,
    tags: Seq<Seq<char>>,
    with_self: bool,
    n: NoteView,
)
    requires
        shown_notes(notes, tags, with_self).contains(n),
    ensures
        notes.contains(n),
        may_show(n, with_self),
        has_tags(n, tags),
    decreases notes.len(),
{
    let now = shown_notes(notes, tags, with_self);
    let k = choose|k: int| 0 <= k < now.len() && now[k] == n;
    if notes.len() > 0 {
        let before = shown_notes(notes.drop_last(), tags, with_self);
        if k < before.len() {
            assert(before[k] == n);
            shown_are_allowed(notes.drop_last(), tags, with_self, n);
            let j = choose|j: int| 0 <= j < notes.drop_last().len() && notes.drop_last()[j] == n;
            assert(notes[j] == n);
        } else {
            assert(notes[notes.len() - 1] == n);
        }
    }
}

pub(crate) proof fn allowed_are_shown(
    notes: Seq<NoteView>,
    tags: Seq<Seq<char>>,
    with_self: bool,
    k: int,
)
    requires
        0 <= k < notes.len(),
        may_show(notes[k], with_self),
        has_tags(notes[k], tags),
    ensures
        shown_notes(notes, tags, with_self).contains(notes[k]),
        shown_notes(notes, tags, with_self).len() > 0,
    decreases notes.len(),
{
    let now = shown_notes(notes, tags, with_self);
    let before = shown_notes(notes.drop_last(), tags, with_self);
    if k < notes.len() - 1 {
        assert(notes.drop_last()[k] == notes[k]);
        allowed_are_shown(notes.drop_last(), tags, with_self, k);
        let j = choose|j: int| 0 <= j < before.len() && before[j] == notes[k];
        assert(now[j] == notes[k]);
    } else {
        assert(now[now.len() - 1] == notes[k]);
    }
}

/// Unless it is wanted, no recall gives a note about the assistant itself; and it
/// gives no note that was not found.
pub proof fn recall_keeps_self_notes_apart(
    found: Seq<NoteView>,
    tags: Seq<Seq<char>>,
    limit: int,
    n: NoteView,
)
    requires
        0 <= limit,
        first_notes(shown_notes(found, tags, false), limit).contains(n),
    ensures
        !n.is_self(),
        found.contains(n),
{
    let all = shown_notes(found, tags, false);
    let some = first_notes(all, limit);
    let k = choose|k: int| 0 <= k < some.len() && some[k] == n;
    assert(all[k] == n);
    shown_are_allowed(found, tags, false, n);
}

// ---------- how they are shown ----------

/// The tags of a note that are shown: not the one for notes about the assistant.
pub open spec fn shown_tags(tags: Seq<Seq<char>>) -> Seq<Seq<char>>
    decreases tags.len(),
{
    if tags.len() == 0 {
        Seq::empty()
    } else {
        let before = shown_tags(tags.drop_last());
        if tags.last() == notes::SELF_NOTE_TAG@ {
            before
        } else {
            before.push(tags.last())
        }
    }
}

fn visible_tags(tags: &Vec<String>) -> (r: Vec<String>)
    ensures
        text::views(r@) == shown_tags(text::views(tags@)),
{
    let ghost all = text::views(tags@);
    let mut r: Vec<String> = Vec::new();
    let mut i: usize = 0;
    assert(all.take(0) =~= Seq::<Seq<char>>::empty());
    assert(text::views(r@) =~= Seq::<Seq<char>>::empty());
    while i < tags.len()
        invariant
            i <= tags.len(),
            all == text::views(tags@),
            text::views(r@) == shown_tags(all.take(i as int)),
        decreases tags.len() - i,
    {
        assert(all.take(i + 1).drop_last() =~= all.take(i as int));
        assert(all.take(i + 1).last() == tags@[i as int]@);
        if !text::same(tags[i].as_str(), notes::SELF_NOTE_TAG) {
            r.push(tags[i].clone());
        }
        i = i + 1;
    }
    assert(all.take(i as int) =~= all);
    r
}

/// The mark before a note about the assistant itself.
pub open spec fn self_mark(n: NoteView, loc: Locale) -> Seq<char> {
    if n.is_self() {
        loc.text("notes.mark.self"@) + " "@
    } else {
        Seq::empty()
    }
}

fn mark_self(n: &Note, loc: &Locale) -> (r: String)
    ensures
        r@ == self_mark(n@, *loc),
{
    if notes::is_self_note(n) {
        text::cat2(loc.t("notes.mark.self"), " ")
    } else {
        String::new()
    }
}

/// A note as a recall lists it.
pub open spec fn note_row(n: NoteView, loc: Locale) -> Seq<char> {
    let tags = shown_tags(n.tags);
    let line = "- (id="@ + ids::hyphenated(n.id) + ") "@ + self_mark(n, loc) + n.content;
    if tags.len() == 0 {
        line + "\n"@
    } else {
        line + "  ["@ + text::joined(tags, ", "@) + "]"@ + "\n"@
    }
}

pub open spec fn note_rows(notes: Seq<NoteView>, loc: Locale) -> Seq<char>
    decreases notes.len(),
{
    if notes.len() == 0 {
        Seq::empty()
    } else {
        note_rows(notes.drop_last(), loc) + note_row(notes.last(), loc)
    }
}

/// The notes as a recall lists them.
pub open spec fn notes_text(notes: Seq<NoteView>, loc: Locale) -> Seq<char> {
    if notes.len() == 0 {
        loc.text("tool.note_recall.result.empty"@)
    } else {
        text::no_right_margin(
            loc.text1("tool.note_recall.result.header"@, "n"@, text::decimal(notes.len())) + "\n"@
                + note_rows(notes, loc),
        )
    }
}

fn show_note(n: &Note, loc: &Locale) -> (r: String)
    ensures
        r@ == note_row(n@, *loc),
{
    let id: String = ids::show(n.id);
    let mark: String = mark_self(n, loc);
    let mut line: String = text::cat5(
        "- (id=",
        id.as_str(),
        ") ",
        mark.as_str(),
        n.content.as_str(),
    );
    let tags: Vec<String> = visible_tags(&n.tags);
    assert(text::views(tags@).len() == tags@.len());
    if tags.len() > 0 {
        line.push_str("  [");
        let joined: String = text::join(&tags, ", ");
        line.push_str(joined.as_str());
        line.push_str("]");
    }
    line.push_str("\n");
    line
}

/// The notes as a recall lists them, each with its identifier.
pub fn format_notes(found: &Vec<Note>, loc: &Locale) -> (r: ToolOutcome)
    ensures
        r.says(notes_text(notes::note_views(found@), *loc)),
{
    let ghost all = notes::note_views(found@);
    if found.len() == 0 {
        return ToolOutcome::text(text::owned(loc.t("tool.note_recall.result.empty")));
    }
    let n: String = text::dec_usize(found.len());
    let head: String = loc.tf1("tool.note_recall.result.header", "n", n.as_str());
    let mut rows: String = String::new();
    let mut i: usize = 0;
    assert(all.take(0) =~= Seq::<NoteView>::empty());
    while i < found.len()
        invariant
            i <= found.len(),
            all == notes::note_views(found@),
            rows@ == note_rows(all.take(i as int), *loc),
        decreases found.len() - i,
    {
        assert(all.take(i + 1).drop_last() =~= all.take(i as int));
        assert(all.take(i + 1).last() == found@[i as int]@);
        let row: String = show_note(&found[i], loc);
        rows.push_str(row.as_str());
        i = i + 1;
    }
    assert(all.take(i as int) =~= all);
    let out: String = text::cat3(head.as_str(), "\n", rows.as_str());
    ToolOutcome::text(text::trim_end(out.as_str()))
}

// ---------- what goes with them ----------

/// A note linked to another one.
#[derive(Debug)]
pub struct Neighbor {
    pub note: Note,
    pub relation: String,
    /// The link leads from the other note to this one.
    pub outgoing: bool,
}

/// What a [`Neighbor`] holds.
#[verifier::ext_equal]
pub struct NeighborView {
    pub note: NoteView,
    pub relation: Seq<char>,
    pub outgoing: bool,
}

impl View for Neighbor {
    type V = NeighborView;

    open spec fn view(&self) -> NeighborView {
        NeighborView { note: self.note@, relation: self.relation@, outgoing: self.outgoing }
    }
}

pub open spec fn neighbor_views(v: Seq<Neighbor>) -> Seq<NeighborView> {
    v.map_values(|n: Neighbor| n@)
}

pub broadcast proof fn neighbor_views_push(v: Seq<Neighbor>, n: Neighbor)
    ensures
        #[trigger] neighbor_views(v.push(n)) == neighbor_views(v).push(n@),
{
    assert(neighbor_views(v.push(n)) =~= neighbor_views(v).push(n@));
}

/// The neighbours of the first `n` notes, one list behind the other.
pub open spec fn neighbors_of(near: Seq<Vec<Neighbor>>, n: int) -> Seq<NeighborView>
    decreases n,
{
    if n <= 0 {
        Seq::empty()
    } else {
        neighbors_of(near, n - 1) + neighbor_views(near[n - 1]@)
    }
}

pub open spec fn arrow(outgoing: bool) -> Seq<char> {
    if outgoing {
        "→"@
    } else {
        "←"@
    }
}

/// The identifier is among the notes found, or among the neighbours so far.
pub open spec fn is_seen(hits: Seq<NoteView>, near: Seq<NeighborView>, id: u128) -> bool {
    (exists|i: int| 0 <= i < hits.len() && (#[trigger] hits[i]).id == id) || (exists|i: int|
        0 <= i < near.len() && (#[trigger] near[i]).note.id == id)
}

/// A neighbour as a recall shows it.
pub open spec fn related_row(n: NeighborView, loc: Locale) -> Seq<char> {
    "- "@ + arrow(n.outgoing) + n.relation + " "@ + self_mark(n.note, loc) + "(id="@
        + ids::hyphenated(n.note.id) + ") "@ + n.note.content
}

/// The neighbours that are not among the notes found, each note once.
pub open spec fn related_rows(hits: Seq<NoteView>, near: Seq<NeighborView>, loc: Locale) -> Seq<
    Seq<char>,
>
    decreases near.len(),
{
    if near.len() == 0 {
        Seq::empty()
    } else {
        let before = related_rows(hits, near.drop_last(), loc);
        if is_seen(hits, near.drop_last(), near.last().note.id) {
            before
        } else {
            before.push(related_row(near.last(), loc))
        }
    }
}

fn seen_in(hits: &Vec<Note>, near: &Vec<Neighbor>, upto: usize, id: u128) -> (r: bool)
    requires
        upto <= near.len(),
    ensures
        r == is_seen(
            notes::note_views(hits@),
            neighbor_views(near@).take(upto as int),
            id,
        ),
{
    let ghost found = notes::note_views(hits@);
    let ghost before = neighbor_views(near@).take(upto as int);
    let mut i: usize = 0;
    while i < hits.len()
        invariant
            i <= hits.len(),
            found == notes::note_views(hits@),
            forall|j: int| 0 <= j < i ==> (#[trigger] found[j]).id != id,
        decreases hits.len() - i,
    {
        assert(found[i as int] == hits@[i as int]@);
        if hits[i].id == id {
            assert(found[i as int].id == id);
            return true;
        }
        i = i + 1;
    }
    let mut k: usize = 0;
    while k < upto
        invariant
            k <= upto <= near.len(),
            before == neighbor_views(near@).take(upto as int),
            forall|j: int| 0 <= j < k ==> (#[trigger] before[j]).note.id != id,
        decreases upto - k,
    {
        assert(before[k as int] == near@[k as int]@);
        if near[k].note.id == id {
            assert(before[k as int].note.id == id);
            return true;
        }
        k = k + 1;
    }
    false
}

impl Neighbor {
    fn copied(&self) -> (r: Neighbor)
        ensures
            r@ == self@,
    {
        Neighbor {
            note: self.note.copied(),
            relation: self.relation.clone(),
            outgoing: self.outgoing,
        }
    }
}

/// The neighbours of the first `n` notes in one list.
pub fn flatten_neighbors(near: &Vec<Vec<Neighbor>>, n: usize) -> (r: Vec<Neighbor>)
    requires
        n <= near.len(),
    ensures
        neighbor_views(r@) == neighbors_of(near@, n as int),
{
    let mut r: Vec<Neighbor> = Vec::new();
    let mut i: usize = 0;
    assert(neighbor_views(r@) =~= Seq::<NeighborView>::empty());
    while i < n
        invariant
            i <= n <= near.len(),
            neighbor_views(r@) =~= neighbors_of(near@, i as int),
        decreases n - i,
    {
        let list: &Vec<Neighbor> = &near[i];
        let ghost before = neighbor_views(r@);
        let mut k: usize = 0;
        assert(neighbor_views(list@).take(0) =~= Seq::<NeighborView>::empty());
        while k < list.len()
            invariant
                k <= list.len(),
                neighbor_views(r@) =~= before + neighbor_views(list@).take(k as int),
            decreases list.len() - k,
        {
            broadcast use neighbor_views_push;

            r.push(list[k].copied());
            k = k + 1;
        }
        assert(neighbor_views(list@).take(k as int) =~= neighbor_views(list@));
        i = i + 1;
    }
    r
}

/// A block of lines under a title.
pub open spec fn titled(title: Seq<char>, rows: Seq<Seq<char>>) -> Seq<char> {
    "\n"@ + title + ":\n"@ + text::joined(rows, "\n"@)
}

/// What is linked to the notes found: of the first three, either way, each note once,
/// five at most. A linked note about the assistant itself is marked.
pub open spec fn related_text(hits: Seq<NoteView>, near: Seq<Vec<Neighbor>>, loc: Locale) -> Option<
    Seq<char>,
> {
    let n = if near.len() < notes::RELATED_HITS {
        near.len() as int
    } else {
        notes::RELATED_HITS as int
    };
    let rows = crate::code::look::capped(
        related_rows(hits, neighbors_of(near, n), loc),
        notes::RELATED_IN_RECALL as int,
    );
    if rows.len() == 0 {
        None
    } else {
        Some(titled(loc.text("notes.block.related"@), rows))
    }
}

/// The block of notes linked to those found; `near` holds the neighbours of each.
pub fn related_block(hits: &Vec<Note>, near: &Vec<Vec<Neighbor>>, loc: &Locale) -> (r: Option<
    String,
>)
    ensures
        json::opt_str(r) == related_text(notes::note_views(hits@), near@, *loc),
{
    let n: usize = if near.len() < notes::RELATED_HITS {
        near.len()
    } else {
        notes::RELATED_HITS
    };
    let all: Vec<Neighbor> = flatten_neighbors(near, n);
    let ghost views = neighbor_views(all@);
    let ghost found = notes::note_views(hits@);
    let mut rows: Vec<String> = Vec::new();
    let mut i: usize = 0;
    assert(views.take(0) =~= Seq::<NeighborView>::empty());
    assert(text::views(rows@) =~= Seq::<Seq<char>>::empty());
    while i < all.len()
        invariant
            i <= all.len(),
            views == neighbor_views(all@),
            found == notes::note_views(hits@),
            text::views(rows@) =~= crate::code::look::capped(
                related_rows(found, views.take(i as int), *loc),
                notes::RELATED_IN_RECALL as int,
            ),
        decreases all.len() - i,
    {
        proof {
            assert(views.take(i + 1).drop_last() =~= views.take(i as int));
            assert(views.take(i + 1).last() == all@[i as int]@);
            assert(text::views(rows@).len() == rows@.len());
        }
        if rows.len() < notes::RELATED_IN_RECALL && !seen_in(hits, &all, i, all[i].note.id) {
            let x: &Neighbor = &all[i];
            let id: String = ids::show(x.note.id);
            let mark: String = mark_self(&x.note, loc);
            let to: &str = if x.outgoing {
                "→"
            } else {
                "←"
            };
            let row: String = text::cat8(
                "- ",
                to,
                x.relation.as_str(),
                " ",
                mark.as_str(),
                "(id=",
                id.as_str(),
                ") ",
            );
            rows.push(text::cat2(row.as_str(), x.note.content.as_str()));
        }
        i = i + 1;
    }
    assert(views.take(i as int) =~= views);
    assert(text::views(rows@).len() == rows@.len());
    if rows.len() == 0 {
        None
    } else {
        let joined: String = text::join(&rows, "\n");
        Some(text::cat4("\n", loc.t("notes.block.related"), ":\n", joined.as_str()))
    }
}

/// The citations of the first `n` notes, a row for each source.
pub open spec fn cited_rows(
    found: Seq<u128>,
    sources: Seq<Vec<String>>,
    n: int,
    loc: Locale,
) -> Seq<Seq<char>>
    decreases n,
{
    if n <= 0 {
        Seq::empty()
    } else {
        cited_rows(found, sources, n - 1, loc) + source_rows(
            found[n - 1],
            text::views(sources[n - 1]@),
            loc,
        )
    }
}

pub open spec fn source_rows(id: u128, sources: Seq<Seq<char>>, loc: Locale) -> Seq<Seq<char>> {
    sources.map_values(
        |s: Seq<char>|
            loc.text2("notes.block.cited_sources.item"@, "id"@, ids::hyphenated(id), "s"@, s),
    )
}

/// The block of sources that the notes cite; `sources` holds those of each note.
pub fn cited_sources_block(found: &Vec<u128>, sources: &Vec<Vec<String>>, loc: &Locale) -> (r:
    Option<String>)
    requires
        found.len() == sources.len(),
    ensures
        ({
            let rows = cited_rows(found@, sources@, found.len() as int, *loc);
            json::opt_str(r) == (if rows.len() == 0 {
                None
            } else {
                Some(titled(loc.text("notes.block.cited_sources"@), rows))
            })
        }),
{
    let mut rows: Vec<String> = Vec::new();
    let mut i: usize = 0;
    assert(text::views(rows@) =~= Seq::<Seq<char>>::empty());
    while i < found.len()
        invariant
            i <= found.len(),
            found.len() == sources.len(),
            text::views(rows@) =~= cited_rows(found@, sources@, i as int, *loc),
        decreases found.len() - i,
    {
        let list: &Vec<String> = &sources[i];
        let id: String = ids::show(found[i]);
        let ghost before = text::views(rows@);
        let ghost these = source_rows(found@[i as int], text::views(list@), *loc);
        let mut k: usize = 0;
        assert(these.take(0) =~= Seq::<Seq<char>>::empty());
        while k < list.len()
            invariant
                k <= list.len(),
                i < found.len(),
                id@ == ids::hyphenated(found@[i as int]),
                these == source_rows(found@[i as int], text::views(list@), *loc),
                text::views(rows@) =~= before + these.take(k as int),
            decreases list.len() - k,
        {
            rows.push(
                loc.tf2(
                    "notes.block.cited_sources.item",
                    "id",
                    id.as_str(),
                    "s",
                    list[k].as_str(),
                ),
            );
            assert(these[k as int] == rows@[rows@.len() - 1]@);
            k = k + 1;
        }
        assert(these.take(k as int) =~= these);
        i = i + 1;
    }
    assert(text::views(rows@).len() == rows@.len());
    if rows.len() == 0 {
        None
    } else {
        let joined: String = text::join(&rows, "\n");
        Some(text::cat4("\n", loc.t("notes.block.cited_sources"), ":\n", joined.as_str()))
    }
}

impl NoteRecall {
    /// The answer of a recall: the notes, what is linked to them, what they cite.
    pub fn outcome(
        &self,
        found: &Vec<Note>,
        near: &Vec<Vec<Neighbor>>,
        sources: &Vec<Vec<String>>,
        loc: &Locale,
    ) -> (r: ToolOutcome)
        requires
            found.len() == sources.len(),
        ensures
            ({
                let all = notes::note_views(found@);
                let ids = all.map_values(|n: NoteView| n.id);
                let cited = cited_rows(ids, sources@, ids.len() as int, *loc);
                let linked = match related_text(all, near@, *loc) {
                    Some(b) => notes_text(all, *loc) + b,
                    None => notes_text(all, *loc),
                };
                r.says(
                    if cited.len() == 0 {
                        linked
                    } else {
                        linked + titled(loc.text("notes.block.cited_sources"@), cited)
                    },
                )
            }),
    {
        let ghost all = notes::note_views(found@);
        let listed: ToolOutcome = format_notes(found, loc);
        let mut result: String = listed.result;
        match related_block(found, near, loc) {
            Some(b) => {
                result.push_str(b.as_str());
            },
            None => {},
        }
        let mut ids: Vec<u128> = Vec::new();
        let mut i: usize = 0;
        while i < found.len()
            invariant
                i <= found.len(),
                all == notes::note_views(found@),
                ids@ =~= all.map_values(|n: NoteView| n.id).take(i as int),
            decreases found.len() - i,
        {
            ids.push(found[i].id);
            i = i + 1;
        }
        assert(ids@ =~= all.map_values(|n: NoteView| n.id));
        match cited_sources_block(&ids, sources, loc) {
            Some(b) => {
                result.push_str(b.as_str());
            },
            None => {},
        }
        ToolOutcome::text(result)
    }
}

} // verus!
