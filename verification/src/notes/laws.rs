//! What saving, merging, linking and looking over notes comes to, said of the notes.

use vstd::prelude::*;
use crate::i18n::Locale;
use crate::ids;
use crate::json::JsonView;
use crate::notes;
use crate::notes::NoteView;
use crate::notes::edit;
use crate::notes::graph;
use crate::notes::overview;
use crate::notes::overview::{Link, Score, Similar};
use crate::notes::recall;
use crate::notes::recall::{Neighbor, NeighborView};
use crate::notes::save;
use crate::notes::self_notes;
use crate::notes::self_notes::{Edge, NarrativeSegment, NewNote};
use crate::text;

verus! {

// ---------- arguments ----------

/// A content is taken without its margins; a note that is about the assistant is known by
/// one tag; the relations are four.
pub proof fn what_a_note_may_be(args: JsonView, n: NoteView, r: Seq<char>)
    ensures
        args.str_at("content"@) matches Some(s) ==> notes::content_arg(args) == Some(
            text::trimmed(s),
        ),
        args.str_at("content"@) is None ==> notes::content_arg(args) is None,
        n.is_self() <==> n.tags.contains("@self"@),
        notes::is_relation(r) <==> r == "supports"@ || r == "contradicts"@ || r == "refines"@ || r
            == "relates"@,
{
    assert(notes::RELATIONS@[0]@ == "supports"@);
    assert(notes::RELATIONS@[1]@ == "contradicts"@);
    assert(notes::RELATIONS@[2]@ == "refines"@);
    assert(notes::RELATIONS@[3]@ == "relates"@);
}

/// An identifier is taken without its margins, and from nothing where there is none.
pub proof fn an_identifier_has_no_margins(args: JsonView, key: Seq<char>)
    ensures
        args.str_at(key) matches Some(s) ==> notes::raw_id(args, key) == text::trimmed(s),
        args.str_at(key) is None ==> notes::raw_id(args, key) == Seq::<char>::empty(),
{
    let e = Seq::<char>::empty();
    assert(text::trimmed(e) =~= e);
}

/// A text that is clipped has no margins, and no more characters than asked for: all of
/// it where it is short enough, and else its beginning with an ellipsis as the last.
pub proof fn a_clipped_text_is_a_beginning(s: Seq<char>, n: nat)
    requires
        n > 0,
    ensures
        ({
            let t = text::trimmed(s);
            &&& t.len() <= n ==> notes::clipped(s, n) == t
            &&& t.len() > n ==> notes::clipped(s, n) == t.subrange(0, n - 1) + "…"@
        }),
{
    let t = text::trimmed(s);
    if t.len() > n {
        assert(t.take(n - 1) =~= t.subrange(0, n - 1));
    }
}

// ---------- saving ----------

/// The notes like a new one are the nearest that are of its kind and not the note
/// itself; three of them, in their order.
pub proof fn one_like_note_more(hits: Seq<NoteView>, n: NoteView, id: u128, about_self: bool)
    ensures
        save::similar_to(Seq::empty(), id, about_self) == Seq::<NoteView>::empty(),
        ({
            let before = save::similar_to(hits, id, about_self);
            let like = n.id != id && n.tags.contains("@self"@) == about_self;
            save::similar_to(hits.push(n), id, about_self) == if like && before.len() < 3 {
                before.push(n)
            } else {
                before
            }
        }),
{
    assert(hits.push(n).drop_last() =~= hits);
    let all = save::others(hits, id, about_self);
    assert(save::similar_to(Seq::empty(), id, about_self) =~= Seq::<NoteView>::empty());
    if all.len() > 3 {
        assert(all.push(n).take(3) =~= all.take(3));
    } else if all.len() == 3 {
        assert(all.push(n).take(3) =~= all);
    }
}

/// A save says under which identifier the note is kept; and where there are notes like
/// it, lists them behind that.
pub proof fn a_save_shows_what_is_alike(id: u128, hits: Seq<NoteView>, loc: Locale)
    ensures
        ({
            let saved = loc.text1("tool.note_save.result.saved"@, "id"@, ids::hyphenated(id));
            let like = save::similar_to(hits, id, false);
            &&& save::saved_text(id, None, loc) == saved
            &&& like.len() == 0 ==> save::saved_text(id, Some(hits), loc) == saved
            &&& like.len() > 0 ==> save::saved_text(id, Some(hits), loc) == saved + "\n"@
                + loc.text("tool.note_save.gate.similar"@) + save::similar_rows(like)
        }),
{
}

/// A note that is alike has a line of its own with its identifier and content.
pub proof fn one_like_row_more(v: Seq<NoteView>, n: NoteView)
    ensures
        save::similar_rows(Seq::empty()) == Seq::<char>::empty(),
        save::similar_rows(v.push(n)) == save::similar_rows(v) + "\n- (id="@ + ids::hyphenated(n.id)
            + ") "@ + n.content,
{
    assert(v.push(n).drop_last() =~= v);
    let rows = save::similar_rows(v);
    assert(rows + ("\n- (id="@ + ids::hyphenated(n.id) + ") "@ + n.content) =~= rows + "\n- (id="@
        + ids::hyphenated(n.id) + ") "@ + n.content);
}

/// Notes are embedded in batches of 32 from where the one before ended, the last batch
/// being what is left.
pub proof fn batches_go_on_to_the_end(start: int, total: int)
    requires
        0 <= start <= total,
    ensures
        total - start <= 32 ==> save::batch_end(start, total) == total,
        total - start > 32 ==> save::batch_end(start, total) == start + 32,
{
}

// ---------- merging ----------

/// The identifiers among texts are those that can be read, without margins, in their
/// order.
pub proof fn one_text_more_is_read(texts: Seq<Seq<char>>, t: Seq<char>)
    ensures
        edit::ids_among(Seq::empty()) == Seq::<u128>::empty(),
        edit::ids_among(texts.push(t)) == match ids::id_of(text::trimmed(t)) {
            Some(id) => edit::ids_among(texts).push(id),
            None => edit::ids_among(texts),
        },
{
    assert(texts.push(t).drop_last() =~= texts);
}

/// A note is merged once however often it is named, and only while it is in force.
pub proof fn one_source_more(found: Seq<u128>, active: Seq<bool>, id: u128, is_active: bool)
    requires
        found.len() == active.len(),
    ensures
        edit::in_force(Seq::empty(), Seq::empty()) == Seq::<u128>::empty(),
        ({
            let before = edit::in_force(found, active);
            edit::in_force(found.push(id), active.push(is_active)) == if is_active
                && !before.contains(id) {
                before.push(id)
            } else {
                before
            }
        }),
{
    assert(found.push(id).drop_last() =~= found);
    assert(active.push(is_active).drop_last() =~= active);
}

/// The tags of merged notes come in the order they are met.
pub proof fn one_note_more_is_merged(sources: Seq<NoteView>, n: NoteView, t: Seq<char>)
    requires
        n.tags == seq![t],
    ensures
        edit::merged(Seq::empty()) == Seq::<Seq<char>>::empty(),
        ({
            let before = edit::merged(sources);
            edit::merged(sources.push(n)) == if before.contains(t) {
                before
            } else {
                before.push(t)
            }
        }),
{
    assert(sources.push(n).drop_last() =~= sources);
    reveal_with_fuel(edit::union_of, 2);
    assert(n.tags.drop_last() =~= Seq::<Seq<char>>::empty());
}

// ---------- links ----------

/// The neighbours are listed in their order, each by the way its link leads, the
/// relation, and the note.
pub proof fn one_neighbor_more_is_listed(near: Seq<NeighborView>, x: NeighborView)
    ensures
        graph::neighbor_rows(Seq::empty()) == Seq::<char>::empty(),
        graph::neighbor_rows(near.push(x)) == graph::neighbor_rows(near) + ("- "@ + (
        if x.outgoing {
            "→"@
        } else {
            "←"@
        }) + x.relation + " (id="@ + ids::hyphenated(x.note.id) + ") "@ + x.note.content + "\n"@),
{
    assert(near.push(x).drop_last() =~= near);
}

/// The neighbours are asked for by a relation only where one is named.
pub proof fn a_relation_may_be_asked_for(args: JsonView)
    ensures
        args.str_at("relation"@) is None ==> graph::asked_relation(args) is None,
        args.str_at("relation"@) matches Some(s) ==> graph::asked_relation(args)
            == if text::trimmed(s).len() == 0 {
            None
        } else {
            Some(text::trimmed(s))
        },
{
}

// ---------- notes about the assistant ----------

/// Of the hits those about the assistant are kept, in their order, up to the limit.
pub proof fn one_self_hit_more(hits: Seq<NoteView>, n: NoteView, limit: u64)
    ensures
        ({
            let before = recall::first_notes(self_notes::only_self(hits), limit as int);
            let after = recall::first_notes(self_notes::only_self(hits.push(n)), limit as int);
            after == if n.tags.contains("@self"@) && before.len() < limit {
                before.push(n)
            } else {
                before
            }
        }),
        self_notes::only_self(Seq::empty()) == Seq::<NoteView>::empty(),
{
    assert(hits.push(n).drop_last() =~= hits);
    let all = self_notes::only_self(hits);
    let most = limit as int;
    if all.len() > most {
        assert(all.push(n).take(most) =~= all.take(most));
    } else if all.len() == most {
        assert(all.push(n).take(most) =~= all);
    }
}

/// A link between observations is shown once, from whichever end it is met first: by
/// the one that is shown, the way it leads and its relation, and the other one; that
/// with its text unless it is shown itself, and marked where it is about the user.
pub proof fn one_link_more_is_shown(shown: Seq<u128>, edges: Seq<Edge>, e: Edge, loc: Locale)
    ensures
        self_notes::edge_rows(shown, Seq::empty(), loc) == Seq::<Seq<char>>::empty(),
        ({
            let ends = |x: Edge|
                if x.near.outgoing {
                    (x.at, x.near.note.id)
                } else {
                    (x.near.note.id, x.at)
                };
            let met = exists|i: int|
                0 <= i < edges.len() && ends(#[trigger] edges[i]) == ends(e)
                    && edges[i].near.relation == e.near.relation;
            let other = e.near.note;
            let tail = if shown.contains(other.id) {
                "(id="@ + ids::hyphenated(other.id) + ")"@
            } else if other.tags.contains("@self"@) {
                Seq::empty() + "(id="@ + ids::hyphenated(other.id) + ") "@ + other.content
            } else {
                loc.text("notes.mark.note"@) + " "@ + "(id="@ + ids::hyphenated(other.id) + ") "@
                    + other.content
            };
            let row = "- (id="@ + ids::hyphenated(e.at) + ") "@ + (if e.near.outgoing {
                "→"@
            } else {
                "←"@
            }) + e.near.relation + " "@ + tail;
            let before = self_notes::edge_rows(shown, edges, loc);
            self_notes::edge_rows(shown, edges.push(e), loc) == if met {
                before
            } else {
                before.push(row)
            }
        }),
{
    assert(edges.push(e).drop_last() =~= edges);
    let ends = |x: Edge|
        if x.near.outgoing {
            (x.at, x.near.note.id)
        } else {
            (x.near.note.id, x.at)
        };
    if self_notes::link_met(edges, e) {
        let i = choose|i: int|
            0 <= i < edges.len() && self_notes::link_of(#[trigger] edges[i])
                == self_notes::link_of(e);
        assert(ends(edges[i]) == ends(e) && edges[i].near.relation == e.near.relation);
    }
    if exists|i: int|
        0 <= i < edges.len() && ends(#[trigger] edges[i]) == ends(e) && edges[i].near.relation
            == e.near.relation {
        let i = choose|i: int|
            0 <= i < edges.len() && ends(#[trigger] edges[i]) == ends(e) && edges[i].near.relation
                == e.near.relation;
        assert(self_notes::link_of(edges[i]) == self_notes::link_of(e));
    }
}

/// The links of the observations come one list behind the other.
pub proof fn one_observation_more(shown: Seq<u128>, near: Seq<Vec<Neighbor>>, n: int)
    requires
        0 <= n < shown.len(),
        shown.len() == near.len(),
    ensures
        self_notes::edges_of(shown, near, 0) == Seq::<Edge>::empty(),
        ({
            let before = self_notes::edges_of(shown, near, n);
            let after = self_notes::edges_of(shown, near, n + 1);
            &&& after.len() == before.len() + near[n]@.len()
            &&& forall|i: int| 0 <= i < before.len() ==> #[trigger] after[i] == before[i]
            &&& forall|k: int|
                0 <= k < near[n]@.len() ==> after[before.len() + k] == (Edge {
                    at: shown[n],
                    near: (#[trigger] near[n]@[k])@,
                })
        }),
{
}

/// A piece of the narrative becomes a note about the assistant with the same text and
/// the piece's own date.
pub proof fn a_piece_becomes_a_note(s: NarrativeSegment, n: NewNote)
    requires
        self_notes::is_moved(s, n),
    ensures
        n.content@ == s.text@,
        n.tags@.len() == 1 && n.tags@[0]@ == "@self"@,
        n.created_at == s.created_at && n.updated_at == s.created_at,
{
    let t = text::views(n.tags@);
    assert(t.len() == n.tags@.len());
    assert(t[0] == n.tags@[0]@);
}

// ---------- the overview ----------

/// Two notes are a pair of an overview where both are of its kind and they are at least
/// as alike as asked for; the pairs are looked at in their order.
pub proof fn one_pair_more(
    all: Seq<NoteView>,
    sims: Seq<Similar>,
    least: i64,
    about_self: bool,
    n: int,
)
    requires
        0 <= n < sims.len(),
        overview::pairs_fit(all, sims),
    ensures
        overview::kept_pairs(all, sims, least, about_self, 0) == Seq::<int>::empty(),
        ({
            let p = sims[n];
            let alike = p.score.rank >= least;
            let kind = all[p.a as int].tags.contains("@self"@) == about_self
                && all[p.b as int].tags.contains("@self"@) == about_self;
            overview::kept_pairs(all, sims, least, about_self, n + 1) == if alike && kind {
                overview::kept_pairs(all, sims, least, about_self, n).push(n)
            } else {
                overview::kept_pairs(all, sims, least, about_self, n)
            }
        }),
{
}

/// The pairs of an overview are listed with the most alike first, none twice and none
/// left out, each by how alike its two notes are, and the notes.
pub proof fn pairs_are_listed_by_likeness(
    all: Seq<NoteView>,
    sims: Seq<Similar>,
    least: i64,
    about_self: bool,
    k: int,
)
    requires
        0 <= k < overview::pair_rows(all, sims, least, about_self).len(),
    ensures
        ({
            let kept = overview::kept_pairs(all, sims, least, about_self, sims.len() as int);
            let order = overview::by_rank(sims, kept);
            let p = sims[order[k]];
            &&& order.len() == kept.len()
            &&& order.to_multiset() == kept.to_multiset()
            &&& forall|i: int, j: int|
                0 <= i < j < order.len() ==> sims[#[trigger] order[i]].score.rank
                    >= sims[#[trigger] order[j]].score.rank
            &&& overview::pair_rows(all, sims, least, about_self).len() == kept.len()
            &&& overview::pair_rows(all, sims, least, about_self)[k] == "- "@ + p.score.shown@
                + " (id="@ + ids::hyphenated(all[p.a as int].id) + ") "@ + notes::clipped(
                all[p.a as int].content,
                60,
            ) + " ↔ (id="@ + ids::hyphenated(all[p.b as int].id) + ") "@ + notes::clipped(
                all[p.b as int].content,
                60,
            ) + "\n"@
        }),
{
    let kept = overview::kept_pairs(all, sims, least, about_self, sims.len() as int);
    overview::the_nearest_come_first(sims, kept);
}

/// A contradiction is listed where both its notes are of the overview, in the order of
/// the links.
pub proof fn one_contradiction_more(links: Seq<Link>, l: Link, among: Seq<NoteView>)
    ensures
        overview::contradiction_rows(Seq::empty(), among) == Seq::<Seq<char>>::empty(),
        ({
            let inside = (exists|i: int| 0 <= i < among.len() && (#[trigger] among[i]).id == l.from)
                && (exists|i: int| 0 <= i < among.len() && (#[trigger] among[i]).id == l.to);
            let before = overview::contradiction_rows(links, among);
            overview::contradiction_rows(links.push(l), among) == if l.relation@ == "contradicts"@
                && inside {
                before.push(
                    "- (id="@ + ids::hyphenated(l.from) + ") ↔ (id="@ + ids::hyphenated(l.to)
                        + ")\n"@,
                )
            } else {
                before
            }
        }),
{
    assert(links.push(l).drop_last() =~= links);
}

/// A note hangs loose where no link leads from it or to it.
pub proof fn one_loose_note_more(active: Seq<NoteView>, n: NoteView, links: Seq<Link>)
    ensures
        overview::loose_rows(Seq::empty(), links) == Seq::<Seq<char>>::empty(),
        ({
            let tied = exists|i: int|
                0 <= i < links.len() && ((#[trigger] links[i]).from == n.id || links[i].to == n.id);
            let before = overview::loose_rows(active, links);
            overview::loose_rows(active.push(n), links) == if tied {
                before
            } else {
                before.push(
                    "- (id="@ + ids::hyphenated(n.id) + ") "@ + notes::clipped(n.content, 60)
                        + "\n"@,
                )
            }
        }),
{
    assert(active.push(n).drop_last() =~= active);
}

/// Of each section eight rows are shown, the first ones, in their order.
pub proof fn sections_are_short(rows: Seq<Seq<char>>, n: int)
    requires
        0 <= n < rows.len(),
    ensures
        overview::rows_cat(rows, 0) == Seq::<char>::empty(),
        overview::rows_cat(rows, n + 1) == overview::rows_cat(rows, n) + rows[n],
        overview::section_rows(rows) == if rows.len() <= 8 {
            overview::rows_cat(rows, rows.len() as int)
        } else {
            overview::rows_cat(rows, 8)
        },
{
}

/// The overview of the notes about the user counts those notes and what hangs loose among
/// them, and has the three sections of these notes, with how many rows each has in all.
/// Without such a note it says so.
pub proof fn the_overview_is_of_the_users_notes(
    active: Seq<NoteView>,
    with_vectors: Seq<NoteView>,
    sims: Seq<Similar>,
    threshold: Score,
    links: Seq<Link>,
    loc: Locale,
)
    ensures
        ({
            let mine = recall::shown_notes(active, Seq::empty(), false);
            let pairs = overview::pair_rows(with_vectors, sims, threshold.rank, false);
            let against = overview::contradiction_rows(links, mine);
            let loose = overview::loose_rows(mine, links);
            let r = overview::user_overview(active, with_vectors, sims, threshold, links, loc);
            &&& mine.len() == 0 ==> r == loc.text("notes.overview.empty"@)
            &&& mine.len() > 0 ==> r == text::no_right_margin(
                loc.text("notes.overview.header"@) + "\n"@ + loc.text2(
                    "notes.overview.active"@,
                    "n"@,
                    text::decimal(mine.len()),
                    "d"@,
                    text::decimal(loose.len()),
                ) + "\n"@ + "\n"@ + loc.text2(
                    "notes.overview.pairs"@,
                    "sim"@,
                    threshold.shown@,
                    "n"@,
                    text::decimal(pairs.len()),
                ) + "\n"@ + overview::section_rows(pairs) + "\n"@ + loc.text1(
                    "notes.overview.contradicts"@,
                    "n"@,
                    text::decimal(against.len()),
                ) + "\n"@ + overview::section_rows(against) + "\n"@ + loc.text1(
                    "notes.overview.dangling"@,
                    "n"@,
                    text::decimal(loose.len()),
                ) + "\n"@ + overview::section_rows(loose),
            )
        }),
{
}

/// The overview of the observations is made where there are at least two of them, and
/// has the same three sections.
pub proof fn the_self_overview_is_of_observations(
    active: Seq<NoteView>,
    with_vectors: Seq<NoteView>,
    sims: Seq<Similar>,
    threshold: Score,
    links: Seq<Link>,
    loc: Locale,
)
    ensures
        ({
            let pairs = overview::pair_rows(with_vectors, sims, threshold.rank, true);
            let against = overview::contradiction_rows(links, active);
            let loose = overview::loose_rows(active, links);
            let r = overview::self_overview(active, with_vectors, sims, threshold, links, loc);
            &&& active.len() < 2 ==> r is None
            &&& active.len() >= 2 ==> r == Some(
                text::no_right_margin(
                    loc.text("notes.self_overview.header"@) + "\n"@ + loc.text2(
                        "notes.self_overview.count"@,
                        "n"@,
                        text::decimal(active.len()),
                        "d"@,
                        text::decimal(loose.len()),
                    ) + "\n"@ + "\n"@ + loc.text2(
                        "notes.overview.pairs"@,
                        "sim"@,
                        threshold.shown@,
                        "n"@,
                        text::decimal(pairs.len()),
                    ) + "\n"@ + overview::section_rows(pairs) + "\n"@ + loc.text1(
                        "notes.self_overview.contradicts"@,
                        "n"@,
                        text::decimal(against.len()),
                    ) + "\n"@ + overview::section_rows(against) + "\n"@ + loc.text1(
                        "notes.self_overview.dangling"@,
                        "n"@,
                        text::decimal(loose.len()),
                    ) + "\n"@ + overview::section_rows(loose),
                ),
            )
        }),
{
}

/// Of the parts of a self-description those are compared that have 40 characters without
/// their margins, in their order.
pub proof fn one_paragraph_more(parts: Seq<Seq<char>>, p: Seq<char>)
    ensures
        overview::long_paragraphs(Seq::empty()) == Seq::<Seq<char>>::empty(),
        overview::long_paragraphs(parts.push(p)) == if text::trimmed(p).len() >= 40 {
            overview::long_paragraphs(parts).push(text::trimmed(p))
        } else {
            overview::long_paragraphs(parts)
        },
{
    assert(parts.push(p).drop_last() =~= parts);
}

/// The nearest observation is one that is alike enough and that none is more alike than,
/// the first of such; there is none only where none is alike enough.
pub proof fn the_nearest_is_the_most_alike(ranks: Seq<i64>, least: i64, n: int)
    requires
        0 <= n <= ranks.len(),
    ensures
        ({
            let i = overview::nearest(ranks, least, n);
            &&& i == -1 || 0 <= i < n
            &&& i == -1 ==> forall|j: int| 0 <= j < n ==> #[trigger] ranks[j] < least
            &&& i >= 0 ==> ranks[i] >= least
            &&& i >= 0 ==> forall|j: int| 0 <= j < n ==> #[trigger] ranks[j] <= ranks[i]
            &&& i >= 0 ==> forall|j: int| 0 <= j < i ==> #[trigger] ranks[j] < ranks[i]
        }),
    decreases n,
{
    if n > 0 {
        the_nearest_is_the_most_alike(ranks, least, n - 1);
    }
}

/// A paragraph has a row where an observation is alike enough, with the nearest one.
pub proof fn one_overlap_more(
    paragraphs: Seq<Seq<char>>,
    observations: Seq<NoteView>,
    ranks: Seq<Vec<i64>>,
    least: i64,
    n: int,
)
    requires
        0 <= n < paragraphs.len(),
        ranks.len() == paragraphs.len(),
    ensures
        overview::overlap_rows(paragraphs, observations, ranks, least, 0)
            == Seq::<Seq<char>>::empty(),
        ({
            let i = overview::nearest(ranks[n]@, least, ranks[n]@.len() as int);
            let before = overview::overlap_rows(paragraphs, observations, ranks, least, n);
            overview::overlap_rows(paragraphs, observations, ranks, least, n + 1) == if i == -1 {
                before
            } else {
                before.push(
                    "- "@ + notes::clipped(paragraphs[n], 60) + " ≈ (id="@ + ids::hyphenated(
                        observations[i].id,
                    ) + ") "@ + notes::clipped(observations[i].content, 60),
                )
            }
        }),
{
    the_nearest_is_the_most_alike(ranks[n]@, least, ranks[n]@.len() as int);
}

} // verus!
