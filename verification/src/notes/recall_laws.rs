//! What a recall gives, said of the notes that were found.

use vstd::prelude::*;
use crate::code::look;
use crate::i18n::Locale;
use crate::ids;
use crate::notes::NoteView;
use crate::notes::recall;
use crate::notes::recall::{Neighbor, NeighborView};
use crate::text;

verus! {

/// The notes of a recall: those that pass, in order, up to the limit.
pub open spec fn recalled(
    found: Seq<NoteView>,
    tags: Seq<Seq<char>>,
    with_self: bool,
    limit: Option<u64>,
) -> Seq<NoteView> {
    recall::first_notes(
        recall::shown_notes(found, tags, with_self),
        recall::wanted_notes(limit) as int,
    )
}

/// A note that a recall gives was found, has every one of the tags asked for among its
/// own, and is not about the assistant itself unless those are wanted.
pub proof fn a_recalled_note_has_every_tag(
    found: Seq<NoteView>,
    tags: Seq<Seq<char>>,
    with_self: bool,
    limit: Option<u64>,
    k: int,
)
    requires
        0 <= k < recalled(found, tags, with_self, limit).len(),
    ensures
        forall|i: int|
            0 <= i < tags.len() ==> recalled(found, tags, with_self, limit)[k].tags.contains(
                #[trigger] tags[i],
            ),
        found.contains(recalled(found, tags, with_self, limit)[k]),
        with_self || !recalled(found, tags, with_self, limit)[k].tags.contains("@self"@),
{
    let all = recall::shown_notes(found, tags, with_self);
    let n = recalled(found, tags, with_self, limit)[k];
    assert(all[k] == n);
    recall::shown_are_allowed(found, tags, with_self, n);
}

/// A recall that is not full leaves out no note that fits: one that was found, has every
/// tag, and may be shown.
pub proof fn a_fitting_note_is_recalled(
    found: Seq<NoteView>,
    tags: Seq<Seq<char>>,
    with_self: bool,
    limit: Option<u64>,
    k: int,
)
    requires
        0 <= k < found.len(),
        forall|i: int| 0 <= i < tags.len() ==> found[k].tags.contains(#[trigger] tags[i]),
        with_self || !found[k].tags.contains("@self"@),
        recalled(found, tags, with_self, limit).len() < recall::wanted_notes(limit),
    ensures
        recalled(found, tags, with_self, limit).contains(found[k]),
{
    recall::allowed_are_shown(found, tags, with_self, k);
}

/// Notes come in the order they were found in, and the limit cuts at the end: with one
/// hit more a recall gives the same, and that one behind them where it fits and there is
/// room. Without a word on it there is room for five.
pub proof fn one_hit_more(
    found: Seq<NoteView>,
    n: NoteView,
    tags: Seq<Seq<char>>,
    with_self: bool,
    limit: Option<u64>,
)
    ensures
        recalled(Seq::empty(), tags, with_self, limit) == Seq::<NoteView>::empty(),
        ({
            let before = recalled(found, tags, with_self, limit);
            let fits = (with_self || !n.tags.contains("@self"@)) && forall|i: int|
                0 <= i < tags.len() ==> n.tags.contains(#[trigger] tags[i]);
            let room = match limit {
                Some(most) => before.len() < most,
                None => before.len() < 5,
            };
            recalled(found.push(n), tags, with_self, limit) == if fits && room {
                before.push(n)
            } else {
                before
            }
        }),
{
    assert(found.push(n).drop_last() =~= found);
    let all = recall::shown_notes(found, tags, with_self);
    let most = recall::wanted_notes(limit) as int;
    assert(recalled(Seq::empty(), tags, with_self, limit) =~= Seq::<NoteView>::empty());
    if all.len() > most {
        assert(all.push(n).take(most) =~= all.take(most));
    } else if all.len() == most {
        assert(all.push(n).take(most) =~= all);
    }
}

/// The tags shown with a note are its own in their order, without the one that marks a
/// note about the assistant.
pub proof fn one_tag_more(tags: Seq<Seq<char>>, t: Seq<char>)
    ensures
        recall::shown_tags(Seq::empty()) == Seq::<Seq<char>>::empty(),
        recall::shown_tags(tags.push(t)) == if t == "@self"@ {
            recall::shown_tags(tags)
        } else {
            recall::shown_tags(tags).push(t)
        },
{
    assert(tags.push(t).drop_last() =~= tags);
}

/// A note is listed with its identifier and its content, marked where it is about the
/// assistant, and with its tags behind it where it shows any; one line for each note, in
/// their order.
pub proof fn one_note_more(found: Seq<NoteView>, n: NoteView, loc: Locale)
    ensures
        recall::note_rows(Seq::empty(), loc) == Seq::<char>::empty(),
        recall::note_rows(found.push(n), loc) == recall::note_rows(found, loc) + recall::note_row(
            n,
            loc,
        ),
        n.tags.len() == 0 ==> recall::note_row(n, loc) == "- (id="@ + ids::hyphenated(n.id) + ") "@
            + n.content + "\n"@,
        n.tags.len() == 1 && n.tags[0] != "@self"@ ==> recall::note_row(n, loc) == "- (id="@
            + ids::hyphenated(n.id) + ") "@ + n.content + "  ["@ + n.tags[0] + "]"@ + "\n"@,
        n.tags.len() == 1 && n.tags[0] == "@self"@ ==> recall::note_row(n, loc) == "- (id="@
            + ids::hyphenated(n.id) + ") "@ + loc.text("notes.mark.self"@) + " "@ + n.content
            + "\n"@,
{
    assert(found.push(n).drop_last() =~= found);
    let e = Seq::<char>::empty();
    let head = "- (id="@ + ids::hyphenated(n.id) + ") "@;
    if n.tags.len() == 0 {
        assert(!n.tags.contains("@self"@));
        assert(head + e + n.content =~= head + n.content);
    } else if n.tags.len() == 1 {
        let none = Seq::<Seq<char>>::empty();
        assert(n.tags =~= none.push(n.tags[0]));
        one_tag_more(none, n.tags[0]);
        if n.tags[0] == "@self"@ {
            assert(n.tags.contains("@self"@));
            assert(head + (loc.text("notes.mark.self"@) + " "@) + n.content =~= head + loc.text(
                "notes.mark.self"@,
            ) + " "@ + n.content);
        } else {
            assert(!n.tags.contains("@self"@));
            assert(head + e + n.content =~= head + n.content);
            assert(recall::shown_tags(n.tags) =~= seq![n.tags[0]]);
        }
    }
}

/// What is linked is shown once: a neighbour whose note was found, or came before, is
/// left out, and any other has a row behind the rest, by which way the link leads, its
/// relation, and the note.
pub proof fn one_neighbor_more(
    hits: Seq<NoteView>,
    near: Seq<NeighborView>,
    x: NeighborView,
    loc: Locale,
)
    ensures
        recall::related_rows(hits, Seq::empty(), loc) == Seq::<Seq<char>>::empty(),
        (exists|i: int| 0 <= i < hits.len() && (#[trigger] hits[i]).id == x.note.id)
            ==> recall::related_rows(hits, near.push(x), loc) == recall::related_rows(
            hits,
            near,
            loc,
        ),
        (exists|i: int| 0 <= i < near.len() && (#[trigger] near[i]).note.id == x.note.id)
            ==> recall::related_rows(hits, near.push(x), loc) == recall::related_rows(
            hits,
            near,
            loc,
        ),
        (forall|i: int| 0 <= i < hits.len() ==> (#[trigger] hits[i]).id != x.note.id) && (forall|
            i: int,
        |
            0 <= i < near.len() ==> (#[trigger] near[i]).note.id != x.note.id)
            ==> recall::related_rows(hits, near.push(x), loc) == recall::related_rows(
            hits,
            near,
            loc,
        ).push(
            "- "@ + (if x.outgoing {
                "→"@
            } else {
                "←"@
            }) + x.relation + " "@ + recall::self_mark(x.note, loc) + "(id="@ + ids::hyphenated(
                x.note.id,
            ) + ") "@ + x.note.content,
        ),
        recall::self_mark(x.note, loc) == if x.note.tags.contains("@self"@) {
            loc.text("notes.mark.self"@) + " "@
        } else {
            Seq::empty()
        },
{
    assert(near.push(x).drop_last() =~= near);
}

/// The neighbours are looked at for three of the notes at most, and five rows at most
/// come of them: what the notes behind are linked to changes nothing.
pub proof fn related_notes_are_few(
    hits: Seq<NoteView>,
    near: Seq<Vec<Neighbor>>,
    loc: Locale,
)
    requires
        near.len() > 3,
    ensures
        recall::related_text(hits, near, loc) == recall::related_text(hits, near.take(3), loc),
{
    same_neighbors(near, near.take(3), 3);
}

proof fn same_neighbors(a: Seq<Vec<Neighbor>>, b: Seq<Vec<Neighbor>>, n: int)
    requires
        0 <= n <= a.len(),
        n <= b.len(),
        forall|i: int| 0 <= i < n ==> a[i] == b[i],
    ensures
        recall::neighbors_of(a, n) == recall::neighbors_of(b, n),
    decreases n,
{
    if n > 0 {
        same_neighbors(a, b, n - 1);
    }
}

/// The neighbours of the first note come first, then the second's, then the third's; the
/// rows they give stand under a title, the first five of them, and there is no title
/// without a row.
pub proof fn related_notes_are_titled(
    hits: Seq<NoteView>,
    near: Seq<Vec<Neighbor>>,
    loc: Locale,
)
    requires
        near.len() <= 3,
    ensures
        ({
            let all = if near.len() == 0 {
                Seq::empty()
            } else if near.len() == 1 {
                recall::neighbor_views(near[0]@)
            } else if near.len() == 2 {
                recall::neighbor_views(near[0]@) + recall::neighbor_views(near[1]@)
            } else {
                recall::neighbor_views(near[0]@) + recall::neighbor_views(near[1]@)
                    + recall::neighbor_views(near[2]@)
            };
            let rows = recall::related_rows(hits, all, loc);
            recall::related_text(hits, near, loc) == if rows.len() == 0 {
                None
            } else if rows.len() <= 5 {
                Some(
                    "\n"@ + loc.text("notes.block.related"@) + ":\n"@ + text::joined(rows, "\n"@),
                )
            } else {
                Some(
                    "\n"@ + loc.text("notes.block.related"@) + ":\n"@ + text::joined(
                        rows.subrange(0, 5),
                        "\n"@,
                    ),
                )
            }
        }),
{
    reveal_with_fuel(recall::neighbors_of, 4);
    let n = near.len() as int;
    let e = Seq::<NeighborView>::empty();
    let all = if n == 0 {
        e
    } else if n == 1 {
        recall::neighbor_views(near[0]@)
    } else if n == 2 {
        recall::neighbor_views(near[0]@) + recall::neighbor_views(near[1]@)
    } else {
        recall::neighbor_views(near[0]@) + recall::neighbor_views(near[1]@)
            + recall::neighbor_views(near[2]@)
    };
    assert(recall::neighbors_of(near, n) =~= all);
    let rows = recall::related_rows(hits, all, loc);
    assert(look::capped(rows, 5) == if rows.len() <= 5 {
        rows
    } else {
        rows.take(5)
    });
    if rows.len() > 5 {
        assert(rows.take(5) =~= rows.subrange(0, 5));
    }
}

/// Each source that a note cites has a row of its own, with the note's identifier: the
/// notes in their order, the sources of each in theirs.
pub proof fn one_note_more_is_cited(
    found: Seq<u128>,
    sources: Seq<Vec<String>>,
    n: int,
    loc: Locale,
)
    requires
        0 <= n < found.len(),
        found.len() == sources.len(),
    ensures
        recall::cited_rows(found, sources, 0, loc) == Seq::<Seq<char>>::empty(),
        recall::cited_rows(found, sources, n + 1, loc).len() == recall::cited_rows(
            found,
            sources,
            n,
            loc,
        ).len() + sources[n]@.len(),
        forall|i: int|
            0 <= i < recall::cited_rows(found, sources, n, loc).len()
                ==> #[trigger] recall::cited_rows(found, sources, n + 1, loc)[i]
                == recall::cited_rows(found, sources, n, loc)[i],
        forall|k: int|
            0 <= k < sources[n]@.len() ==> recall::cited_rows(
                found,
                sources,
                n + 1,
                loc,
            )[recall::cited_rows(found, sources, n, loc).len() + k] == loc.text2(
                "notes.block.cited_sources.item"@,
                "id"@,
                ids::hyphenated(found[n]),
                "s"@,
                (#[trigger] sources[n]@[k])@,
            ),
{
}

} // verus!
