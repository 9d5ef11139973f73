//! The overview of the notes from which they are consolidated: what is alike, what
//! contradicts, what hangs loose.

use vstd::prelude::*;
use crate::i18n::Locale;
use crate::ids;
use crate::json;
use crate::notes;
use crate::notes::{Note, NoteView};
use crate::outcome::ToolOutcome;
use crate::text;

verus! {

broadcast use {text::views_push, notes::note_views_push};

/// A likeness: its place in the order of likenesses, and how it is written.
#[derive(Debug)]
pub struct Score {
    pub rank: i64,
    pub shown: String,
}

/// The likeness of two notes, by their positions.
#[derive(Debug)]
pub struct Similar {
    pub a: usize,
    pub b: usize,
    pub score: Score,
}

/// A link between two notes.
#[derive(Debug)]
pub struct Link {
    pub from: u128,
    pub to: u128,
    pub relation: String,
}

// ---------- rows ----------

/// The first `n` rows, one behind the other.
pub open spec fn rows_cat(rows: Seq<Seq<char>>, n: int) -> Seq<char>
    decreases n,
{
    if n <= 0 {
        Seq::empty()
    } else {
        rows_cat(rows, n - 1) + rows[n - 1]
    }
}

/// The rows of a section that are shown.
pub open spec fn section_rows(rows: Seq<Seq<char>>) -> Seq<char> {
    rows_cat(
        rows,
        if rows.len() < notes::CONSOLIDATE_LIST_CAP {
            rows.len() as int
        } else {
            notes::CONSOLIDATE_LIST_CAP as int
        },
    )
}

fn cat_rows(rows: &Vec<String>) -> (r: String)
    ensures
        r@ == section_rows(text::views(rows@)),
{
    let n: usize = if rows.len() < notes::CONSOLIDATE_LIST_CAP {
        rows.len()
    } else {
        notes::CONSOLIDATE_LIST_CAP
    };
    let mut r: String = String::new();
    let mut i: usize = 0;
    while i < n
        invariant
            i <= n <= rows.len(),
            r@ == rows_cat(text::views(rows@), i as int),
        decreases n - i,
    {
        r.push_str(rows[i].as_str());
        i = i + 1;
    }
    r
}

// ---------- pairs that are alike ----------

/// The pair belongs to the overview: both notes are about the assistant itself, or
/// neither is, and they are alike enough.
pub open spec fn is_kept(all: Seq<NoteView>, p: Similar, least: i64, about_self: bool) -> bool {
    p.score.rank >= least && all[p.a as int].is_self() == about_self && all[p.b as int].is_self()
        == about_self
}

/// The positions of the pairs that belong to the overview, among the first `n`.
pub open spec fn kept_pairs(
    all: Seq<NoteView>,
    sims: Seq<Similar>,
    least: i64,
    about_self: bool,
    n: int,
) -> Seq<int>
    decreases n,
{
    if n <= 0 {
        Seq::empty()
    } else {
        let before = kept_pairs(all, sims, least, about_self, n - 1);
        if is_kept(all, sims[n - 1], least, about_self) {
            before.push(n - 1)
        } else {
            before
        }
    }
}

/// Where a pair goes among ordered ones: behind all that are at least as alike.
pub open spec fn rank_place(sims: Seq<Similar>, idx: Seq<int>, x: int, i: int) -> int
    decreases idx.len() - i,
{
    if 0 <= i < idx.len() && sims[idx[i]].score.rank >= sims[x].score.rank {
        rank_place(sims, idx, x, i + 1)
    } else {
        i
    }
}

/// The pairs in order, the most alike first; those equally alike as they came.
pub open spec fn by_rank(sims: Seq<Similar>, idx: Seq<int>) -> Seq<int>
    decreases idx.len(),
{
    if idx.len() == 0 {
        Seq::empty()
    } else {
        let t = by_rank(sims, idx.drop_last());
        t.insert(rank_place(sims, t, idx.last(), 0), idx.last())
    }
}

pub open spec fn ranks_fall(sims: Seq<Similar>, idx: Seq<int>) -> bool {
    forall|i: int, j: int|
        0 <= i < j < idx.len() ==> sims[#[trigger] idx[i]].score.rank
            >= sims[#[trigger] idx[j]].score.rank
}

proof fn rank_place_splits(sims: Seq<Similar>, idx: Seq<int>, x: int, i: int)
    requires
        ranks_fall(sims, idx),
        0 <= i <= idx.len(),
        forall|j: int|
            0 <= j < i ==> sims[#[trigger] idx[j]].score.rank >= sims[x].score.rank,
    ensures
        i <= rank_place(sims, idx, x, i) <= idx.len(),
        forall|j: int|
            0 <= j < rank_place(sims, idx, x, i) ==> sims[#[trigger] idx[j]].score.rank
                >= sims[x].score.rank,
        forall|j: int|
            rank_place(sims, idx, x, i) <= j < idx.len() ==> sims[#[trigger] idx[j]].score.rank
                <= sims[x].score.rank,
    decreases idx.len() - i,
{
    if i < idx.len() && sims[idx[i]].score.rank >= sims[x].score.rank {
        rank_place_splits(sims, idx, x, i + 1);
    } else if i < idx.len() {
        assert forall|j: int| i <= j < idx.len() implies sims[#[trigger] idx[j]].score.rank
            <= sims[x].score.rank by {
            if j > i {
                assert(sims[idx[i]].score.rank >= sims[idx[j]].score.rank);
            }
        }
    }
}

/// The pairs are listed from the most alike to the least, none left out and none
/// twice.
pub proof fn the_nearest_come_first(sims: Seq<Similar>, idx: Seq<int>)
    ensures
        ranks_fall(sims, by_rank(sims, idx)),
        by_rank(sims, idx).len() == idx.len(),
        by_rank(sims, idx).to_multiset() == idx.to_multiset(),
    decreases idx.len(),
{
    if idx.len() > 0 {
        let t = by_rank(sims, idx.drop_last());
        let x = idx.last();
        the_nearest_come_first(sims, idx.drop_last());
        rank_place_splits(sims, t, x, 0);
        let p = rank_place(sims, t, x, 0);
        let r = t.insert(p, x);
        assert forall|i: int, j: int| 0 <= i < j < r.len() implies sims[#[trigger]
        r[i]].score.rank >= sims[#[trigger] r[j]].score.rank by {
            if i < p && j > p {
                assert(sims[t[i]].score.rank >= sims[t[j - 1]].score.rank);
            } else if i < p && j < p {
                assert(sims[t[i]].score.rank >= sims[t[j]].score.rank);
            } else if i > p {
                assert(sims[t[i - 1]].score.rank >= sims[t[j - 1]].score.rank);
            } else if i == p {
                assert(sims[t[j - 1]].score.rank <= sims[x].score.rank);
            } else {
                assert(sims[t[i]].score.rank >= sims[x].score.rank);
            }
        }
        vstd::seq_lib::to_multiset_insert(t, p, x);
        vstd::seq_lib::to_multiset_build(idx.drop_last(), x);
        assert(idx.drop_last().push(x) =~= idx);
    } else {
        assert(idx =~= Seq::<int>::empty());
    }
}

/// A pair as the overview lists it.
pub open spec fn pair_row(all: Seq<NoteView>, p: Similar) -> Seq<char> {
    "- "@ + p.score.shown@ + " (id="@ + ids::hyphenated(all[p.a as int].id) + ") "@
        + notes::clipped(all[p.a as int].content, 60) + " ↔ (id="@ + ids::hyphenated(
        all[p.b as int].id,
    ) + ") "@ + notes::clipped(all[p.b as int].content, 60) + "\n"@
}

/// The pairs as the overview lists them, the most alike first.
pub open spec fn pair_rows(
    all: Seq<NoteView>,
    sims: Seq<Similar>,
    least: i64,
    about_self: bool,
) -> Seq<Seq<char>> {
    by_rank(sims, kept_pairs(all, sims, least, about_self, sims.len() as int)).map_values(
        |i: int| pair_row(all, sims[i]),
    )
}

/// Each pair is of notes that are there.
pub open spec fn pairs_fit(all: Seq<NoteView>, sims: Seq<Similar>) -> bool {
    forall|i: int|
        0 <= i < sims.len() ==> (#[trigger] sims[i]).a < all.len() && sims[i].b < all.len()
}

pub open spec fn as_ints(v: Seq<usize>) -> Seq<int> {
    v.map_values(|i: usize| i as int)
}

fn list_pairs(all: &Vec<Note>, sims: &Vec<Similar>, least: i64, about_self: bool) -> (r: Vec<
    String,
>)
    requires
        pairs_fit(notes::note_views(all@), sims@),
    ensures
        text::views(r@) == pair_rows(notes::note_views(all@), sims@, least, about_self),
{
    let ghost views = notes::note_views(all@);
    let mut order: Vec<usize> = Vec::new();
    let mut i: usize = 0;
    assert(as_ints(order@) =~= Seq::<int>::empty());
    while i < sims.len()
        invariant
            i <= sims.len(),
            views == notes::note_views(all@),
            pairs_fit(views, sims@),
            as_ints(order@) =~= by_rank(
                sims@,
                kept_pairs(views, sims@, least, about_self, i as int),
            ),
            forall|k: int| 0 <= k < order@.len() ==> (#[trigger] order@[k]) < i,
        decreases sims.len() - i,
    {
        let p: &Similar = &sims[i];
        assert(views[p.a as int] == all@[p.a as int]@);
        assert(views[p.b as int] == all@[p.b as int]@);
        assert(views.len() == all@.len());
        if p.score.rank >= least && notes::is_self_note(&all[p.a]) == about_self
            && notes::is_self_note(&all[p.b]) == about_self {
            let ghost t = as_ints(order@);
            let ghost kept = kept_pairs(views, sims@, least, about_self, i as int);
            let mut k: usize = 0;
            while k < order.len() && sims[order[k]].score.rank >= sims[i].score.rank
                invariant
                    k <= order.len(),
                    i < sims.len(),
                    t == as_ints(order@),
                    forall|j: int| 0 <= j < order@.len() ==> (#[trigger] order@[j]) < i,
                    rank_place(sims@, t, i as int, k as int) == rank_place(sims@, t, i as int, 0),
                decreases order.len() - k,
            {
                assert(t[k as int] == order@[k as int] as int);
                k = k + 1;
            }
            proof {
                if k < order.len() {
                    assert(t[k as int] == order@[k as int] as int);
                }
                assert(kept.push(i as int).drop_last() =~= kept);
            }
            order.insert(k, i);
            assert(as_ints(order@) =~= t.insert(k as int, i as int));
        }
        i = i + 1;
    }
    let ghost idx = as_ints(order@);
    let ghost rows = pair_rows(views, sims@, least, about_self);
    let mut r: Vec<String> = Vec::new();
    let mut k: usize = 0;
    while k < order.len()
        invariant
            k <= order.len(),
            views == notes::note_views(all@),
            pairs_fit(views, sims@),
            idx == as_ints(order@),
            rows == idx.map_values(|i: int| pair_row(views, sims@[i])),
            forall|j: int| 0 <= j < order@.len() ==> (#[trigger] order@[j]) < sims.len(),
            text::views(r@) =~= rows.take(k as int),
        decreases order.len() - k,
    {
        let p: &Similar = &sims[order[k]];
        assert(views[p.a as int] == all@[p.a as int]@);
        assert(views[p.b as int] == all@[p.b as int]@);
        assert(views.len() == all@.len());
        r.push(show_pair(&all[p.a], &all[p.b], p));
        assert(rows[k as int] == pair_row(views, sims@[idx[k as int]]));
        k = k + 1;
    }
    assert(rows.take(k as int) =~= rows);
    r
}

fn show_pair(a: &Note, b: &Note, p: &Similar) -> (r: String)
    ensures
        r@ == "- "@ + p.score.shown@ + " (id="@ + ids::hyphenated(a.id) + ") "@ + notes::clipped(
            a.content@,
            60,
        ) + " ↔ (id="@ + ids::hyphenated(b.id) + ") "@ + notes::clipped(b.content@, 60) + "\n"@,
{
    let id_a: String = ids::show(a.id);
    let id_b: String = ids::show(b.id);
    let text_a: String = notes::clip(a.content.as_str(), 60);
    let text_b: String = notes::clip(b.content.as_str(), 60);
    let mut row: String = text::cat8(
        "- ",
        p.score.shown.as_str(),
        " (id=",
        id_a.as_str(),
        ") ",
        text_a.as_str(),
        " ↔ (id=",
        id_b.as_str(),
    );
    row.push_str(") ");
    row.push_str(text_b.as_str());
    row.push_str("\n");
    row
}

// ---------- contradictions, loose notes ----------

/// One of the notes has this identifier.
pub open spec fn has_id(v: Seq<NoteView>, id: u128) -> bool {
    exists|i: int| 0 <= i < v.len() && (#[trigger] v[i]).id == id
}

fn some_has_id(v: &Vec<Note>, id: u128) -> (r: bool)
    ensures
        r == has_id(notes::note_views(v@), id),
{
    let ghost all = notes::note_views(v@);
    let mut i: usize = 0;
    while i < v.len()
        invariant
            i <= v.len(),
            all == notes::note_views(v@),
            forall|j: int| 0 <= j < i ==> (#[trigger] all[j]).id != id,
        decreases v.len() - i,
    {
        assert(all[i as int] == v@[i as int]@);
        if v[i].id == id {
            assert(all[i as int].id == id);
            return true;
        }
        i = i + 1;
    }
    false
}

/// A contradiction that belongs to an overview: one between the notes that it is about.
pub open spec fn is_contradiction(l: Link, among: Seq<NoteView>) -> bool {
    l.relation@ == "contradicts"@ && has_id(among, l.from) && has_id(among, l.to)
}

pub open spec fn contradiction_rows(links: Seq<Link>, among: Seq<NoteView>) -> Seq<Seq<char>>
    decreases links.len(),
{
    if links.len() == 0 {
        Seq::empty()
    } else {
        let before = contradiction_rows(links.drop_last(), among);
        let l = links.last();
        if is_contradiction(l, among) {
            before.push(
                "- (id="@ + ids::hyphenated(l.from) + ") ↔ (id="@ + ids::hyphenated(l.to)
                    + ")\n"@,
            )
        } else {
            before
        }
    }
}

fn list_contradictions(links: &Vec<Link>, among: &Vec<Note>) -> (r: Vec<String>)
    ensures
        text::views(r@) == contradiction_rows(links@, notes::note_views(among@)),
{
    let ghost group = notes::note_views(among@);
    let mut r: Vec<String> = Vec::new();
    let mut i: usize = 0;
    assert(links@.take(0) =~= Seq::<Link>::empty());
    assert(text::views(r@) =~= Seq::<Seq<char>>::empty());
    while i < links.len()
        invariant
            i <= links.len(),
            group == notes::note_views(among@),
            text::views(r@) == contradiction_rows(links@.take(i as int), group),
        decreases links.len() - i,
    {
        assert(links@.take(i + 1).drop_last() =~= links@.take(i as int));
        let l: &Link = &links[i];
        if text::same(l.relation.as_str(), "contradicts") && some_has_id(among, l.from)
            && some_has_id(among, l.to) {
            let from: String = ids::show(l.from);
            let to: String = ids::show(l.to);
            r.push(text::cat5("- (id=", from.as_str(), ") ↔ (id=", to.as_str(), ")\n"));
        }
        i = i + 1;
    }
    assert(links@.take(i as int) =~= links@);
    r
}

/// A link leads from or to the note.
pub open spec fn is_linked(links: Seq<Link>, id: u128) -> bool {
    exists|i: int|
        0 <= i < links.len() && ((#[trigger] links[i]).from == id || links[i].to == id)
}

fn linked(links: &Vec<Link>, id: u128) -> (r: bool)
    ensures
        r == is_linked(links@, id),
{
    let mut i: usize = 0;
    while i < links.len()
        invariant
            i <= links.len(),
            forall|j: int|
                0 <= j < i ==> (#[trigger] links@[j]).from != id && links@[j].to != id,
        decreases links.len() - i,
    {
        if links[i].from == id || links[i].to == id {
            assert(links@[i as int].from == id || links@[i as int].to == id);
            return true;
        }
        i = i + 1;
    }
    false
}

/// The notes that no link leads from or to.
pub open spec fn loose_rows(active: Seq<NoteView>, links: Seq<Link>) -> Seq<Seq<char>>
    decreases active.len(),
{
    if active.len() == 0 {
        Seq::empty()
    } else {
        let before = loose_rows(active.drop_last(), links);
        let n = active.last();
        if is_linked(links, n.id) {
            before
        } else {
            before.push(
                "- (id="@ + ids::hyphenated(n.id) + ") "@ + notes::clipped(n.content, 60) + "\n"@,
            )
        }
    }
}

fn list_loose(active: &Vec<Note>, links: &Vec<Link>) -> (r: Vec<String>)
    ensures
        text::views(r@) == loose_rows(notes::note_views(active@), links@),
{
    let ghost all = notes::note_views(active@);
    let mut r: Vec<String> = Vec::new();
    let mut i: usize = 0;
    assert(all.take(0) =~= Seq::<NoteView>::empty());
    assert(text::views(r@) =~= Seq::<Seq<char>>::empty());
    while i < active.len()
        invariant
            i <= active.len(),
            all == notes::note_views(active@),
            text::views(r@) == loose_rows(all.take(i as int), links@),
        decreases active.len() - i,
    {
        assert(all.take(i + 1).drop_last() =~= all.take(i as int));
        assert(all.take(i + 1).last() == active@[i as int]@);
        if !linked(links, active[i].id) {
            let id: String = ids::show(active[i].id);
            let shown: String = notes::clip(active[i].content.as_str(), 60);
            r.push(text::cat5("- (id=", id.as_str(), ") ", shown.as_str(), "\n"));
        }
        i = i + 1;
    }
    assert(all.take(i as int) =~= all);
    r
}

// ---------- the overview ----------

/// The overview: its head, how many notes there are, and three sections with their
/// titles.
pub open spec fn overview_of(
    head: Seq<char>,
    counts: Seq<char>,
    pairs_title: Seq<char>,
    pairs: Seq<Seq<char>>,
    contradictions_title: Seq<char>,
    contradictions: Seq<Seq<char>>,
    loose_title: Seq<char>,
    loose: Seq<Seq<char>>,
) -> Seq<char> {
    text::no_right_margin(
        head + "\n"@ + counts + "\n"@ + "\n"@ + pairs_title + "\n"@ + section_rows(pairs) + "\n"@
            + contradictions_title + "\n"@ + section_rows(contradictions) + "\n"@ + loose_title
            + "\n"@ + section_rows(loose),
    )
}

fn assemble(
    head: &str,
    counts: &str,
    pairs_title: &str,
    pairs: &Vec<String>,
    contradictions_title: &str,
    contradictions: &Vec<String>,
    loose_title: &str,
    loose: &Vec<String>,
) -> (r: String)
    ensures
        r@ == overview_of(
            head@,
            counts@,
            pairs_title@,
            text::views(pairs@),
            contradictions_title@,
            text::views(contradictions@),
            loose_title@,
            text::views(loose@),
        ),
{
    let mut out: String = text::cat4(head, "\n", counts, "\n");
    out.push_str("\n");
    out.push_str(pairs_title);
    out.push_str("\n");
    let rows: String = cat_rows(pairs);
    out.push_str(rows.as_str());
    out.push_str("\n");
    out.push_str(contradictions_title);
    out.push_str("\n");
    let rows: String = cat_rows(contradictions);
    out.push_str(rows.as_str());
    out.push_str("\n");
    out.push_str(loose_title);
    out.push_str("\n");
    let rows: String = cat_rows(loose);
    out.push_str(rows.as_str());
    text::trim_end(out.as_str())
}

/// The notes about the user that are in force.
pub open spec fn user_notes(v: Seq<NoteView>) -> Seq<NoteView> {
    notes::recall::shown_notes(v, Seq::empty(), false)
}

/// The overview of the notes about the user.
pub open spec fn user_overview(
    active: Seq<NoteView>,
    with_vectors: Seq<NoteView>,
    sims: Seq<Similar>,
    threshold: Score,
    links: Seq<Link>,
    loc: Locale,
) -> Seq<char> {
    let mine = user_notes(active);
    let pairs = pair_rows(with_vectors, sims, threshold.rank, false);
    let contradictions = contradiction_rows(links, mine);
    let loose = loose_rows(mine, links);
    if mine.len() == 0 {
        loc.text("notes.overview.empty"@)
    } else {
        overview_of(
            loc.text("notes.overview.header"@),
            loc.text2(
                "notes.overview.active"@,
                "n"@,
                text::decimal(mine.len()),
                "d"@,
                text::decimal(loose.len()),
            ),
            loc.text2(
                "notes.overview.pairs"@,
                "sim"@,
                threshold.shown@,
                "n"@,
                text::decimal(pairs.len()),
            ),
            pairs,
            loc.text1("notes.overview.contradicts"@, "n"@, text::decimal(contradictions.len())),
            contradictions,
            loc.text1("notes.overview.dangling"@, "n"@, text::decimal(loose.len())),
            loose,
        )
    }
}

/// The overview of the notes about the user. `with_vectors` are the notes that have a
/// vector, and `sims` the likeness of each two of them. Notes about the assistant itself
/// are left out of every section and of every count.
pub fn build_consolidation_overview(
    active: &Vec<Note>,
    with_vectors: &Vec<Note>,
    sims: &Vec<Similar>,
    threshold: &Score,
    links: &Vec<Link>,
    loc: &Locale,
) -> (r: String)
    requires
        pairs_fit(notes::note_views(with_vectors@), sims@),
    ensures
        r@ == user_overview(
            notes::note_views(active@),
            notes::note_views(with_vectors@),
            sims@,
            *threshold,
            links@,
            *loc,
        ),
{
    let mine: Vec<Note> = notes::recall::without_self(active);
    assert(notes::note_views(mine@).len() == mine@.len());
    if mine.len() == 0 {
        return text::owned(loc.t("notes.overview.empty"));
    }
    let pairs: Vec<String> = list_pairs(with_vectors, sims, threshold.rank, false);
    let contradictions: Vec<String> = list_contradictions(links, &mine);
    let loose: Vec<String> = list_loose(&mine, links);
    proof {
        assert(text::views(pairs@).len() == pairs@.len());
        assert(text::views(contradictions@).len() == contradictions@.len());
        assert(text::views(loose@).len() == loose@.len());
    }
    let n_mine: String = text::dec_usize(mine.len());
    let n_pairs: String = text::dec_usize(pairs.len());
    let n_contra: String = text::dec_usize(contradictions.len());
    let n_loose: String = text::dec_usize(loose.len());
    let counts: String = loc.tf2(
        "notes.overview.active",
        "n",
        n_mine.as_str(),
        "d",
        n_loose.as_str(),
    );
    let title_pairs: String = loc.tf2(
        "notes.overview.pairs",
        "sim",
        threshold.shown.as_str(),
        "n",
        n_pairs.as_str(),
    );
    let title_contra: String = loc.tf1("notes.overview.contradicts", "n", n_contra.as_str());
    let title_loose: String = loc.tf1("notes.overview.dangling", "n", n_loose.as_str());
    assemble(
        loc.t("notes.overview.header"),
        counts.as_str(),
        title_pairs.as_str(),
        &pairs,
        title_contra.as_str(),
        &contradictions,
        title_loose.as_str(),
        &loose,
    )
}

/// The overview of the observations that the assistant made of itself: nothing where
/// there are fewer than two.
pub open spec fn self_overview(
    active: Seq<NoteView>,
    with_vectors: Seq<NoteView>,
    sims: Seq<Similar>,
    threshold: Score,
    links: Seq<Link>,
    loc: Locale,
) -> Option<Seq<char>> {
    let pairs = pair_rows(with_vectors, sims, threshold.rank, true);
    let contradictions = contradiction_rows(links, active);
    let loose = loose_rows(active, links);
    if active.len() < 2 {
        None
    } else {
        Some(
            overview_of(
                loc.text("notes.self_overview.header"@),
                loc.text2(
                    "notes.self_overview.count"@,
                    "n"@,
                    text::decimal(active.len()),
                    "d"@,
                    text::decimal(loose.len()),
                ),
                loc.text2(
                    "notes.overview.pairs"@,
                    "sim"@,
                    threshold.shown@,
                    "n"@,
                    text::decimal(pairs.len()),
                ),
                pairs,
                loc.text1(
                    "notes.self_overview.contradicts"@,
                    "n"@,
                    text::decimal(contradictions.len()),
                ),
                contradictions,
                loc.text1("notes.self_overview.dangling"@, "n"@, text::decimal(loose.len())),
                loose,
            ),
        )
    }
}

/// The overview of the observations that the assistant made of itself, which
/// `active` holds. Contradictions count between two of them.
pub fn build_self_consolidation_overview(
    active: &Vec<Note>,
    with_vectors: &Vec<Note>,
    sims: &Vec<Similar>,
    threshold: &Score,
    links: &Vec<Link>,
    loc: &Locale,
) -> (r: Option<String>)
    requires
        pairs_fit(notes::note_views(with_vectors@), sims@),
    ensures
        json::opt_str(r) == self_overview(
            notes::note_views(active@),
            notes::note_views(with_vectors@),
            sims@,
            *threshold,
            links@,
            *loc,
        ),
{
    if active.len() < 2 {
        return None;
    }
    let pairs: Vec<String> = list_pairs(with_vectors, sims, threshold.rank, true);
    let contradictions: Vec<String> = list_contradictions(links, active);
    let loose: Vec<String> = list_loose(active, links);
    proof {
        assert(text::views(pairs@).len() == pairs@.len());
        assert(text::views(contradictions@).len() == contradictions@.len());
        assert(text::views(loose@).len() == loose@.len());
    }
    let n_active: String = text::dec_usize(active.len());
    let n_pairs: String = text::dec_usize(pairs.len());
    let n_contra: String = text::dec_usize(contradictions.len());
    let n_loose: String = text::dec_usize(loose.len());
    let counts: String = loc.tf2(
        "notes.self_overview.count",
        "n",
        n_active.as_str(),
        "d",
        n_loose.as_str(),
    );
    let title_pairs: String = loc.tf2(
        "notes.overview.pairs",
        "sim",
        threshold.shown.as_str(),
        "n",
        n_pairs.as_str(),
    );
    let title_contra: String = loc.tf1("notes.self_overview.contradicts", "n", n_contra.as_str());
    let title_loose: String = loc.tf1("notes.self_overview.dangling", "n", n_loose.as_str());
    Some(
        assemble(
            loc.t("notes.self_overview.header"),
            counts.as_str(),
            title_pairs.as_str(),
            &pairs,
            title_contra.as_str(),
            &contradictions,
            title_loose.as_str(),
            &loose,
        ),
    )
}

// ---------- self-description and observations ----------

/// A shorter paragraph of the self-description is not compared.
pub const SUMMARY_PARAGRAPH_MIN_CHARS: usize = 40;

/// The paragraphs among these parts that are long enough to be compared.
pub open spec fn long_paragraphs(parts: Seq<Seq<char>>) -> Seq<Seq<char>>
    decreases parts.len(),
{
    if parts.len() == 0 {
        Seq::empty()
    } else {
        let before = long_paragraphs(parts.drop_last());
        let p = text::trimmed(parts.last());
        if p.len() >= SUMMARY_PARAGRAPH_MIN_CHARS {
            before.push(p)
        } else {
            before
        }
    }
}

/// The paragraphs of the self-description that are compared: blank lines part them.
pub fn summary_paragraphs(summary: &str) -> (r: Vec<String>)
    ensures
        text::views(r@) == long_paragraphs(text::split_str(text::trimmed(summary@), "\n\n"@)),
{
    proof {
        reveal_strlit("\n\n");
    }
    let whole: String = text::trim(summary);
    let parts: Vec<String> = text::split_on_str(whole.as_str(), "\n\n");
    let ghost all = text::views(parts@);
    let mut r: Vec<String> = Vec::new();
    let mut i: usize = 0;
    assert(all.take(0) =~= Seq::<Seq<char>>::empty());
    assert(text::views(r@) =~= Seq::<Seq<char>>::empty());
    while i < parts.len()
        invariant
            i <= parts.len(),
            all == text::views(parts@),
            text::views(r@) == long_paragraphs(all.take(i as int)),
        decreases parts.len() - i,
    {
        assert(all.take(i + 1).drop_last() =~= all.take(i as int));
        assert(all.take(i + 1).last() == parts@[i as int]@);
        let p: String = text::trim(parts[i].as_str());
        if text::length(p.as_str()) >= SUMMARY_PARAGRAPH_MIN_CHARS {
            r.push(p);
        }
        i = i + 1;
    }
    assert(all.take(i as int) =~= all);
    r
}

/// The position of the observation nearest to a paragraph among the first `n`: the
/// first of those most alike; -1 where none is alike enough.
pub open spec fn nearest(ranks: Seq<i64>, least: i64, n: int) -> int
    decreases n,
{
    if n <= 0 {
        -1
    } else {
        let best = nearest(ranks, least, n - 1);
        if ranks[n - 1] >= least && (best < 0 || ranks[n - 1] > ranks[best]) {
            n - 1
        } else {
            best
        }
    }
}

fn find_nearest(ranks: &Vec<i64>, least: i64) -> (r: Option<usize>)
    ensures
        match r {
            Some(i) => i < ranks.len() && nearest(ranks@, least, ranks.len() as int) == i,
            None => nearest(ranks@, least, ranks.len() as int) == -1,
        },
{
    let mut best: Option<usize> = None;
    let mut i: usize = 0;
    while i < ranks.len()
        invariant
            i <= ranks.len(),
            match best {
                Some(b) => b < i && nearest(ranks@, least, i as int) == b,
                None => nearest(ranks@, least, i as int) == -1,
            },
        decreases ranks.len() - i,
    {
        let better: bool = match best {
            Some(b) => ranks[i] > ranks[b],
            None => true,
        };
        if ranks[i] >= least && better {
            best = Some(i);
        }
        i = i + 1;
    }
    best
}

/// The paragraphs that an observation is alike to, a row for each.
pub open spec fn overlap_rows(
    paragraphs: Seq<Seq<char>>,
    observations: Seq<NoteView>,
    ranks: Seq<Vec<i64>>,
    least: i64,
    n: int,
) -> Seq<Seq<char>>
    decreases n,
{
    if n <= 0 {
        Seq::empty()
    } else {
        let before = overlap_rows(paragraphs, observations, ranks, least, n - 1);
        let i = nearest(ranks[n - 1]@, least, ranks[n - 1]@.len() as int);
        if i < 0 {
            before
        } else {
            before.push(
                "- "@ + notes::clipped(paragraphs[n - 1], 60) + " ≈ (id="@ + ids::hyphenated(
                    observations[i].id,
                ) + ") "@ + notes::clipped(observations[i].content, 60),
            )
        }
    }
}

/// Where the self-description repeats an observation: for each paragraph the nearest
/// observation that is alike enough. `ranks` holds the likeness of each paragraph to
/// each observation.
pub fn summary_observation_overlaps(
    paragraphs: &Vec<String>,
    observations: &Vec<Note>,
    ranks: &Vec<Vec<i64>>,
    least: i64,
    loc: &Locale,
) -> (r: Option<String>)
    requires
        ranks.len() == paragraphs.len(),
        forall|i: int|
            0 <= i < ranks.len() ==> (#[trigger] ranks@[i])@.len() == observations@.len(),
    ensures
        ({
            let rows = overlap_rows(
                text::views(paragraphs@),
                notes::note_views(observations@),
                ranks@,
                least,
                paragraphs.len() as int,
            );
            json::opt_str(r) == (if rows.len() == 0 {
                None
            } else {
                Some(
                    loc.text("notes.self_overview.summary_obs"@) + "\n"@ + text::joined(
                        rows,
                        "\n"@,
                    ),
                )
            })
        }),
{
    let ghost ps = text::views(paragraphs@);
    let ghost obs = notes::note_views(observations@);
    let mut rows: Vec<String> = Vec::new();
    let mut i: usize = 0;
    assert(text::views(rows@) =~= Seq::<Seq<char>>::empty());
    while i < paragraphs.len()
        invariant
            i <= paragraphs.len(),
            ps == text::views(paragraphs@),
            obs == notes::note_views(observations@),
            ranks.len() == paragraphs.len(),
            forall|k: int|
                0 <= k < ranks.len() ==> (#[trigger] ranks@[k])@.len() == observations@.len(),
            text::views(rows@) == overlap_rows(ps, obs, ranks@, least, i as int),
        decreases paragraphs.len() - i,
    {
        assert(ps[i as int] == paragraphs@[i as int]@);
        match find_nearest(&ranks[i], least) {
            Some(k) => {
                assert(obs[k as int] == observations@[k as int]@);
                let id: String = ids::show(observations[k].id);
                let shown: String = notes::clip(paragraphs[i].as_str(), 60);
                let seen: String = notes::clip(observations[k].content.as_str(), 60);
                rows.push(
                    text::cat6(
                        "- ",
                        shown.as_str(),
                        " ≈ (id=",
                        id.as_str(),
                        ") ",
                        seen.as_str(),
                    ),
                );
            },
            None => {},
        }
        i = i + 1;
    }
    assert(text::views(rows@).len() == rows@.len());
    if rows.len() == 0 {
        None
    } else {
        let joined: String = text::join(&rows, "\n");
        Some(text::cat3(loc.t("notes.self_overview.summary_obs"), "\n", joined.as_str()))
    }
}

// ---------- consolidate_notes ----------

/// `consolidate_notes`.
pub struct ConsolidateNotes;

impl ConsolidateNotes {
    /// The overview, and what to do with it.
    pub fn outcome(&self, overview: &str, loc: &Locale) -> (r: ToolOutcome)
        ensures
            r.says(overview@ + "\n\n"@ + loc.text("tool.consolidate_notes.rubric"@)),
    {
        ToolOutcome::text(text::cat3(overview, "\n\n", loc.t("tool.consolidate_notes.rubric")))
    }
}

} // verus!
