//! `note_save`: writing a note, and showing the notes that are like it.

use vstd::prelude::*;
use crate::i18n::Locale;
use crate::ids;
use crate::json::Json;
use crate::notes;
use crate::notes::{Note, NoteView};
use crate::outcome::ToolOutcome;
use crate::text;

verus! {

broadcast use notes::note_views_push;

/// `note_save`.
pub struct NoteSave;

/// How many notes that are like a new one are shown.
pub const SIMILAR_SHOWN: usize = 3;

/// The notes among the hits that are not this one, and that are about the assistant
/// itself or are not.
pub open spec fn others(hits: Seq<NoteView>, id: u128, about_self: bool) -> Seq<NoteView>
    decreases hits.len(),
{
    if hits.len() == 0 {
        Seq::empty()
    } else {
        let before = others(hits.drop_last(), id, about_self);
        let n = hits.last();
        if n.id != id && n.is_self() == about_self {
            before.push(n)
        } else {
            before
        }
    }
}

/// The first three of them.
pub open spec fn similar_to(hits: Seq<NoteView>, id: u128, about_self: bool) -> Seq<NoteView> {
    notes::recall::first_notes(others(hits, id, about_self), SIMILAR_SHOWN as int)
}

fn similar(hits: &Vec<Note>, id: u128, about_self: bool) -> (r: Vec<Note>)
    ensures
        notes::note_views(r@) == similar_to(notes::note_views(hits@), id, about_self),
{
    let ghost all = notes::note_views(hits@);
    let mut r: Vec<Note> = Vec::new();
    let mut i: usize = 0;
    assert(all.take(0) =~= Seq::<NoteView>::empty());
    assert(notes::note_views(r@) =~= Seq::<NoteView>::empty());
    while i < hits.len()
        invariant
            i <= hits.len(),
            all == notes::note_views(hits@),
            notes::note_views(r@) =~= similar_to(all.take(i as int), id, about_self),
        decreases hits.len() - i,
    {
        assert(all.take(i + 1).drop_last() =~= all.take(i as int));
        assert(all.take(i + 1).last() == hits@[i as int]@);
        assert(notes::note_views(r@).len() == r@.len());
        if hits[i].id != id && notes::is_self_note(&hits[i]) == about_self && r.len()
            < SIMILAR_SHOWN {
            r.push(hits[i].copied());
        }
        i = i + 1;
    }
    assert(all.take(i as int) =~= all);
    r
}

pub open spec fn similar_rows(v: Seq<NoteView>) -> Seq<char>
    decreases v.len(),
{
    if v.len() == 0 {
        Seq::empty()
    } else {
        similar_rows(v.drop_last()) + ("\n- (id="@ + ids::hyphenated(v.last().id) + ") "@
            + v.last().content)
    }
}

/// What a save answers: the note's identifier, and the notes that are like it.
pub open spec fn saved_text(id: u128, hits: Option<Seq<NoteView>>, loc: Locale) -> Seq<char> {
    let saved = loc.text1("tool.note_save.result.saved"@, "id"@, ids::hyphenated(id));
    match hits {
        Some(h) if similar_to(h, id, false).len() > 0 => saved + "\n"@ + loc.text(
            "tool.note_save.gate.similar"@,
        ) + similar_rows(similar_to(h, id, false)),
        _ => saved,
    }
}

impl NoteSave {
    /// Reads the arguments: the content, and the tags.
    pub fn arguments(&self, args: &Json, loc: &Locale) -> (r: Result<
        (String, Vec<String>),
        String,
    >)
        ensures
            ({
                let content = notes::content_arg(args@);
                match r {
                    Ok(a) => content == Some(a.0@) && a.0@.len() > 0 && text::views(a.1@)
                        == args@.strings_at("tags"@),
                    Err(e) => {
                        ||| content is None && e@ == loc.text("notes.err.content_string"@)
                        ||| content is Some && content->0.len() == 0 && e@ == loc.text(
                            "notes.err.content_empty"@,
                        )
                    },
                }
            }),
    {
        match notes::parse_content(args, loc) {
            Ok(content) => Ok((content, notes::parse_tags(args))),
            Err(e) => Err(e),
        }
    }

    /// The answer, once the note is stored. `hits` are the notes nearest to it, where
    /// they could be looked for; notes about the assistant itself are not shown.
    pub fn outcome(&self, id: u128, hits: &Option<Vec<Note>>, loc: &Locale) -> (r: ToolOutcome)
        ensures
            r.says_wrote(
                saved_text(
                    id,
                    match *hits {
                        Some(h) => Some(notes::note_views(h@)),
                        None => None,
                    },
                    *loc,
                ),
            ),
    {
        let shown: String = ids::show(id);
        let mut out: String = loc.tf1("tool.note_save.result.saved", "id", shown.as_str());
        match hits {
            Some(h) => {
                let like: Vec<Note> = similar(h, id, false);
                let ghost all = notes::note_views(like@);
                assert(all.len() == like@.len());
                if like.len() > 0 {
                    out.push_str("\n");
                    out.push_str(loc.t("tool.note_save.gate.similar"));
                    let mut rows: String = String::new();
                    let mut i: usize = 0;
                    assert(all.take(0) =~= Seq::<NoteView>::empty());
                    while i < like.len()
                        invariant
                            i <= like.len(),
                            all == notes::note_views(like@),
                            rows@ == similar_rows(all.take(i as int)),
                        decreases like.len() - i,
                    {
                        assert(all.take(i + 1).drop_last() =~= all.take(i as int));
                        assert(all.take(i + 1).last() == like@[i as int]@);
                        let other: String = ids::show(like[i].id);
                        let row: String = text::cat4(
                            "\n- (id=",
                            other.as_str(),
                            ") ",
                            like[i].content.as_str(),
                        );
                        rows.push_str(row.as_str());
                        i = i + 1;
                    }
                    assert(all.take(i as int) =~= all);
                    out.push_str(rows.as_str());
                }
            },
            None => {},
        }
        ToolOutcome::text(out).wrote_if(true)
    }
}

/// The observations that are like a new one, by the notes nearest to it: notes about
/// the assistant itself, without the new one, three at most.
pub fn self_note_similar(hits: &Vec<Note>, exclude: u128) -> (r: Vec<Note>)
    ensures
        notes::note_views(r@) == similar_to(notes::note_views(hits@), exclude, true),
{
    similar(hits, exclude, true)
}

/// Where a batch of notes without a vector ends.
pub open spec fn batch_end(start: int, total: int) -> int {
    crate::code::look::lesser(start + notes::NOTE_BACKFILL_BATCH, total)
}

/// The next batch of notes to embed: their identifiers, and their texts.
pub fn backfill_batch(missing: &Vec<(u128, String)>, start: usize) -> (r: (Vec<u128>, Vec<String>))
    requires
        start <= missing.len(),
    ensures
        ({
            let batch = missing@.subrange(start as int, batch_end(start as int, missing@.len() as int));
            &&& r.0@ == batch.map_values(|m: (u128, String)| m.0)
            &&& text::views(r.1@) == batch.map_values(|m: (u128, String)| m.1@)
        }),
{
    let left: usize = missing.len() - start;
    let n: usize = if left < notes::NOTE_BACKFILL_BATCH {
        left
    } else {
        notes::NOTE_BACKFILL_BATCH
    };
    let ghost batch = missing@.subrange(start as int, start + n);
    let mut found: Vec<u128> = Vec::new();
    let mut texts: Vec<String> = Vec::new();
    let mut i: usize = 0;
    while i < n
        invariant
            i <= n,
            start + n <= missing.len(),
            batch == missing@.subrange(start as int, start + n),
            found@ =~= batch.map_values(|m: (u128, String)| m.0).take(i as int),
            text::views(texts@) =~= batch.map_values(|m: (u128, String)| m.1@).take(i as int),
        decreases n - i,
    {
        broadcast use text::views_push;

        found.push(missing[start + i].0);
        texts.push(missing[start + i].1.clone());
        i = i + 1;
    }
    assert(found@ =~= batch.map_values(|m: (u128, String)| m.0));
    assert(text::views(texts@) =~= batch.map_values(|m: (u128, String)| m.1@));
    (found, texts)
}

} // verus!
