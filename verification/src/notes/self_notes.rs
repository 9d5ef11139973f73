//! The notes that the assistant keeps about itself.

use vstd::prelude::*;
use crate::i18n::Locale;
use crate::ids;
use crate::json;
use crate::notes;
use crate::notes::recall;
use crate::notes::recall::{Neighbor, NeighborView};
use crate::notes::{Note, NoteView};
use crate::text;
use crate::times::Moment;

verus! {

broadcast use {text::views_push, notes::note_views_push};

/// The newest notes about the assistant itself, by those stored, the newest first.
pub fn self_notes_recent(stored: &Vec<Note>, limit: u64) -> (r: Vec<Note>)
    ensures
        notes::note_views(r@) == recall::first_notes(notes::note_views(stored@), limit as int),
{
    let ghost all = notes::note_views(stored@);
    let mut r: Vec<Note> = Vec::new();
    let mut i: usize = 0;
    assert(notes::note_views(r@) =~= Seq::<NoteView>::empty());
    while i < stored.len()
        invariant
            i <= stored.len(),
            all == notes::note_views(stored@),
            notes::note_views(r@) =~= recall::first_notes(all.take(i as int), limit as int),
        decreases stored.len() - i,
    {
        assert(all.take(i + 1) =~= all.take(i as int).push(stored@[i as int]@));
        assert(notes::note_views(r@).len() == r@.len());
        if (r.len() as u64) < limit {
            r.push(stored[i].copied());
        }
        i = i + 1;
    }
    assert(all.take(i as int) =~= all);
    r
}

/// Whether notes about the assistant itself are looked for by meaning at all, and how
/// many candidates are asked for: some to spare, as the other notes are among them.
pub fn relevant_candidates(query: &str, limit: u64) -> (r: Option<u64>)
    ensures
        r == (if text::is_blank(query@) || limit == 0 {
            None
        } else if limit < 20 {
            Some(20u64)
        } else {
            Some(limit)
        }),
{
    if text::blank(query) || limit == 0 {
        None
    } else if limit < 20 {
        Some(20)
    } else {
        Some(limit)
    }
}

/// The notes about the assistant itself among these.
pub open spec fn only_self(v: Seq<NoteView>) -> Seq<NoteView>
    decreases v.len(),
{
    if v.len() == 0 {
        Seq::empty()
    } else {
        let before = only_self(v.drop_last());
        if v.last().is_self() {
            before.push(v.last())
        } else {
            before
        }
    }
}

/// The notes about the assistant itself nearest to a query, by the hits in order of
/// likeness.
pub fn self_notes_relevant(hits: &Vec<Note>, limit: u64) -> (r: Vec<Note>)
    ensures
        notes::note_views(r@) == recall::first_notes(
            only_self(notes::note_views(hits@)),
            limit as int,
        ),
{
    let ghost all = notes::note_views(hits@);
    let mut r: Vec<Note> = Vec::new();
    let mut i: usize = 0;
    assert(all.take(0) =~= Seq::<NoteView>::empty());
    assert(notes::note_views(r@) =~= Seq::<NoteView>::empty());
    while i < hits.len()
        invariant
            i <= hits.len(),
            all == notes::note_views(hits@),
            notes::note_views(r@) =~= recall::first_notes(
                only_self(all.take(i as int)),
                limit as int,
            ),
        decreases hits.len() - i,
    {
        assert(all.take(i + 1).drop_last() =~= all.take(i as int));
        assert(all.take(i + 1).last() == hits@[i as int]@);
        assert(notes::note_views(r@).len() == r@.len());
        if notes::is_self_note(&hits[i]) && (r.len() as u64) < limit {
            r.push(hits[i].copied());
        }
        i = i + 1;
    }
    assert(all.take(i as int) =~= all);
    r
}

// ---------- the links of the observations shown ----------

/// One neighbour of an observation that is shown.
#[verifier::ext_equal]
pub struct Edge {
    /// The observation.
    pub at: u128,
    pub near: NeighborView,
}

/// The neighbours of one observation.
pub open spec fn edges_at(at: u128, near: Seq<NeighborView>) -> Seq<Edge> {
    near.map_values(|n: NeighborView| Edge { at, near: n })
}

/// The neighbours of the first `n` observations, one list behind the other.
pub open spec fn edges_of(shown: Seq<u128>, near: Seq<Vec<Neighbor>>, n: int) -> Seq<Edge>
    decreases n,
{
    if n <= 0 {
        Seq::empty()
    } else {
        edges_of(shown, near, n - 1) + edges_at(
            shown[n - 1],
            recall::neighbor_views(near[n - 1]@),
        )
    }
}

/// Where a link leads from and to, and by which relation: the same link is met from
/// either end.
pub open spec fn link_of(e: Edge) -> (u128, u128, Seq<char>) {
    if e.near.outgoing {
        (e.at, e.near.note.id, e.near.relation)
    } else {
        (e.near.note.id, e.at, e.near.relation)
    }
}

pub open spec fn link_met(before: Seq<Edge>, e: Edge) -> bool {
    exists|i: int| 0 <= i < before.len() && link_of(#[trigger] before[i]) == link_of(e)
}

/// A link as it is shown. A note that is not shown itself comes with its text, and
/// with a mark where it is about the user.
pub open spec fn edge_row(shown: Seq<u128>, e: Edge, loc: Locale) -> Seq<char> {
    let n = e.near.note;
    let mark = if n.is_self() {
        Seq::empty()
    } else {
        loc.text("notes.mark.note"@) + " "@
    };
    let tail = if shown.contains(n.id) {
        "(id="@ + ids::hyphenated(n.id) + ")"@
    } else {
        mark + "(id="@ + ids::hyphenated(n.id) + ") "@ + n.content
    };
    "- (id="@ + ids::hyphenated(e.at) + ") "@ + recall::arrow(e.near.outgoing) + e.near.relation
        + " "@ + tail
}

pub open spec fn edge_rows(shown: Seq<u128>, edges: Seq<Edge>, loc: Locale) -> Seq<Seq<char>>
    decreases edges.len(),
{
    if edges.len() == 0 {
        Seq::empty()
    } else {
        let before = edge_rows(shown, edges.drop_last(), loc);
        if link_met(edges.drop_last(), edges.last()) {
            before
        } else {
            before.push(edge_row(shown, edges.last(), loc))
        }
    }
}

/// One neighbour and the observation it belongs to, by position.
struct Place {
    at: usize,
    k: usize,
}

impl Place {
    spec fn is_in(self, near: Seq<Vec<Neighbor>>) -> bool {
        self.at < near.len() && self.k < near[self.at as int]@.len()
    }

    spec fn edge(self, shown: Seq<u128>, near: Seq<Vec<Neighbor>>) -> Edge {
        Edge { at: shown[self.at as int], near: near[self.at as int]@[self.k as int]@ }
    }
}

spec fn places_edges(places: Seq<Place>, shown: Seq<u128>, near: Seq<Vec<Neighbor>>) -> Seq<Edge> {
    places.map_values(|p: Place| p.edge(shown, near))
}

fn all_places(shown: &Vec<u128>, near: &Vec<Vec<Neighbor>>) -> (r: Vec<Place>)
    requires
        shown.len() == near.len(),
    ensures
        forall|i: int| 0 <= i < r@.len() ==> (#[trigger] r@[i]).is_in(near@),
        places_edges(r@, shown@, near@) == edges_of(shown@, near@, shown.len() as int),
{
    let mut r: Vec<Place> = Vec::new();
    let mut i: usize = 0;
    assert(places_edges(r@, shown@, near@) =~= Seq::<Edge>::empty());
    while i < shown.len()
        invariant
            i <= shown.len(),
            shown.len() == near.len(),
            forall|j: int| 0 <= j < r@.len() ==> (#[trigger] r@[j]).is_in(near@),
            places_edges(r@, shown@, near@) =~= edges_of(shown@, near@, i as int),
        decreases shown.len() - i,
    {
        let ghost before = places_edges(r@, shown@, near@);
        let ghost these = edges_at(shown@[i as int], recall::neighbor_views(near@[i as int]@));
        let mut k: usize = 0;
        assert(these.take(0) =~= Seq::<Edge>::empty());
        while k < near[i].len()
            invariant
                i < shown.len(),
                shown.len() == near.len(),
                k <= near@[i as int]@.len(),
                these == edges_at(shown@[i as int], recall::neighbor_views(near@[i as int]@)),
                forall|j: int| 0 <= j < r@.len() ==> (#[trigger] r@[j]).is_in(near@),
                places_edges(r@, shown@, near@) =~= before + these.take(k as int),
            decreases near@[i as int]@.len() - k,
        {
            let ghost old_places = r@;
            r.push(Place { at: i, k });
            assert(places_edges(r@, shown@, near@) =~= places_edges(
                old_places,
                shown@,
                near@,
            ).push(these[k as int]));
            k = k + 1;
        }
        assert(these.take(k as int) =~= these);
        i = i + 1;
    }
    r
}

fn same_link(a: &Neighbor, at_a: u128, b: &Neighbor, at_b: u128) -> (r: bool)
    ensures
        r == (link_of(Edge { at: at_a, near: a@ }) == link_of(Edge { at: at_b, near: b@ })),
{
    let (from_a, to_a): (u128, u128) = if a.outgoing {
        (at_a, a.note.id)
    } else {
        (a.note.id, at_a)
    };
    let (from_b, to_b): (u128, u128) = if b.outgoing {
        (at_b, b.note.id)
    } else {
        (b.note.id, at_b)
    };
    from_a == from_b && to_a == to_b && text::same(a.relation.as_str(), b.relation.as_str())
}

fn has_number(v: &Vec<u128>, x: u128) -> (r: bool)
    ensures
        r == v@.contains(x),
{
    let mut i: usize = 0;
    while i < v.len()
        invariant
            i <= v.len(),
            forall|j: int| 0 <= j < i ==> v@[j] != x,
        decreases v.len() - i,
    {
        if v[i] == x {
            assert(v@[i as int] == x);
            return true;
        }
        i = i + 1;
    }
    false
}

fn show_edge(shown: &Vec<u128>, at: u128, n: &Neighbor, loc: &Locale) -> (r: String)
    ensures
        r@ == edge_row(shown@, Edge { at, near: n@ }, *loc),
{
    let id: String = ids::show(n.note.id);
    let tail: String = if has_number(shown, n.note.id) {
        text::cat3("(id=", id.as_str(), ")")
    } else {
        let mark: String = if notes::is_self_note(&n.note) {
            String::new()
        } else {
            text::cat2(loc.t("notes.mark.note"), " ")
        };
        text::cat5(mark.as_str(), "(id=", id.as_str(), ") ", n.note.content.as_str())
    };
    let to: &str = if n.outgoing {
        "→"
    } else {
        "←"
    };
    let own: String = ids::show(at);
    let mut row: String = text::cat6("- (id=", own.as_str(), ") ", to, n.relation.as_str(), " ");
    row.push_str(tail.as_str());
    row
}

/// The block of links of the observations shown: each link once, five at most.
/// `near` holds the neighbours of each observation.
pub fn self_related_block(shown: &Vec<u128>, near: &Vec<Vec<Neighbor>>, loc: &Locale) -> (r: Option<
    String,
>)
    requires
        shown.len() == near.len(),
    ensures
        ({
            let rows = crate::code::look::capped(
                edge_rows(shown@, edges_of(shown@, near@, shown.len() as int), *loc),
                notes::RELATED_IN_RECALL as int,
            );
            json::opt_str(r) == (if rows.len() == 0 {
                None
            } else {
                Some(recall::titled(loc.text("notes.block.self_related"@), rows))
            })
        }),
{
    let places: Vec<Place> = all_places(shown, near);
    let ghost edges = places_edges(places@, shown@, near@);
    let mut rows: Vec<String> = Vec::new();
    let mut i: usize = 0;
    assert(edges.take(0) =~= Seq::<Edge>::empty());
    assert(text::views(rows@) =~= Seq::<Seq<char>>::empty());
    while i < places.len()
        invariant
            i <= places.len(),
            shown.len() == near.len(),
            edges == places_edges(places@, shown@, near@),
            forall|j: int| 0 <= j < places@.len() ==> (#[trigger] places@[j]).is_in(near@),
            text::views(rows@) =~= crate::code::look::capped(
                edge_rows(shown@, edges.take(i as int), *loc),
                notes::RELATED_IN_RECALL as int,
            ),
        decreases places.len() - i,
    {
        proof {
            assert(edges.take(i + 1).drop_last() =~= edges.take(i as int));
            assert(edges.take(i + 1).last() == edges[i as int]);
            assert(places@[i as int].is_in(near@));
            assert(text::views(rows@).len() == rows@.len());
        }
        let p: &Place = &places[i];
        let n: &Neighbor = &near[p.at][p.k];
        let at: u128 = shown[p.at];
        let ghost e = edges[i as int];
        assert(e == Edge { at, near: n@ });
        let ghost before = edges.take(i as int);
        let mut met: bool = false;
        let mut k: usize = 0;
        while k < i
            invariant
                k <= i < places.len(),
                shown.len() == near.len(),
                edges == places_edges(places@, shown@, near@),
                before == edges.take(i as int),
                e == (Edge { at, near: n@ }),
                forall|j: int| 0 <= j < places@.len() ==> (#[trigger] places@[j]).is_in(near@),
                met == exists|j: int| 0 <= j < k && link_of(#[trigger] before[j]) == link_of(e),
            decreases i - k,
        {
            let q: &Place = &places[k];
            assert(places@[k as int].is_in(near@));
            assert(before[k as int] == places@[k as int].edge(shown@, near@));
            if same_link(&near[q.at][q.k], shown[q.at], n, at) {
                assert(link_of(before[k as int]) == link_of(e));
                met = true;
            }
            k = k + 1;
        }
        assert(met == link_met(before, e));
        if !met && rows.len() < notes::RELATED_IN_RECALL {
            rows.push(show_edge(shown, at, n, loc));
        }
        i = i + 1;
    }
    assert(edges.take(i as int) =~= edges);
    assert(text::views(rows@).len() == rows@.len());
    if rows.len() == 0 {
        None
    } else {
        let joined: String = text::join(&rows, "\n");
        Some(text::cat4("\n", loc.t("notes.block.self_related"), ":\n", joined.as_str()))
    }
}

// ---------- the narrative that became notes ----------

/// A piece of the narrative in which the assistant used to describe itself.
#[derive(Debug)]
pub struct NarrativeSegment {
    pub text: String,
    pub created_at: Moment,
}

/// A note to be stored.
#[derive(Debug)]
pub struct NewNote {
    pub content: String,
    pub tags: Vec<String>,
    pub created_at: Moment,
    pub updated_at: Moment,
}

/// `n` is the note that a piece of the narrative becomes.
pub open spec fn is_moved(s: NarrativeSegment, n: NewNote) -> bool {
    &&& n.content@ == s.text@
    &&& text::views(n.tags@) == seq![notes::SELF_NOTE_TAG@]
    &&& n.created_at == s.created_at
    &&& n.updated_at == s.created_at
}

/// Takes the narrative out and makes a note about the assistant of each piece, with
/// the piece's own date. What was taken out is not there a second time.
pub fn migrate_self_narrative(narrative: &mut Vec<NarrativeSegment>) -> (r: Vec<NewNote>)
    ensures
        final(narrative)@.len() == 0,
        r@.len() == old(narrative)@.len(),
        forall|i: int| 0 <= i < r@.len() ==> is_moved(old(narrative)@[i], #[trigger] r@[i]),
{
    let mut r: Vec<NewNote> = Vec::new();
    let ghost all = narrative@;
    let mut left: Vec<NarrativeSegment> = Vec::new();
    std::mem::swap(narrative, &mut left);
    let mut i: usize = 0;
    while i < left.len()
        invariant
            i <= left.len(),
            left@ == all,
            r@.len() == i,
            forall|j: int| 0 <= j < i ==> is_moved(all[j], #[trigger] r@[j]),
        decreases left.len() - i,
    {
        let mut tags: Vec<String> = Vec::new();
        assert(text::views(tags@) =~= Seq::<Seq<char>>::empty());
        tags.push(text::owned(notes::SELF_NOTE_TAG));
        assert(text::views(tags@) =~= seq![notes::SELF_NOTE_TAG@]);
        let at: Moment = left[i].created_at;
        r.push(
            NewNote { content: left[i].text.clone(), tags, created_at: at, updated_at: at },
        );
        i = i + 1;
    }
    r
}

} // verus!
