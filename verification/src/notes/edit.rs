//! `note_revise`, `note_supersede` and `note_merge`: changing what was noted.

use vstd::prelude::*;
use crate::i18n::Locale;
use crate::ids;
use crate::json::Json;
use crate::notes;
use crate::notes::{Note, NoteView};
use crate::outcome::ToolOutcome;
use crate::text;

verus! {

broadcast use text::views_push;

// ---------- note_revise ----------

/// `note_revise`.
pub struct NoteRevise;

impl NoteRevise {
    /// Reads the arguments: which note, and its new content.
    pub fn arguments(&self, args: &Json, loc: &Locale) -> (r: Result<(u128, String), String>)
        ensures
            ({
                let raw = notes::raw_id(args@, "id"@);
                let content = notes::content_arg(args@);
                match r {
                    Ok(a) => ids::id_of(raw) == Some(a.0) && content == Some(a.1@) && a.1@.len()
                        > 0,
                    Err(e) => {
                        ||| ids::id_of(raw) is None && e@ == loc.text1(
                            "tool.note_revise.err.bad_id"@,
                            "id"@,
                            raw,
                        )
                        ||| ids::id_of(raw) is Some && content is None && e@ == loc.text(
                            "notes.err.content_string"@,
                        )
                        ||| ids::id_of(raw) is Some && content is Some && content->0.len() == 0
                            && e@ == loc.text("notes.err.content_empty"@)
                    },
                }
            }),
    {
        let raw: String = match args.get_str("id") {
            Some(s) => text::trim(s.as_str()),
            None => text::trim(String::new().as_str()),
        };
        match ids::parse(raw.as_str()) {
            None => Err(loc.tf1("tool.note_revise.err.bad_id", "id", raw.as_str())),
            Some(id) => match notes::parse_content(args, loc) {
                Ok(content) => Ok((id, content)),
                Err(e) => Err(e),
            },
        }
    }

    /// The answer: the note was not there, or it was rewritten. Links to it may no
    /// longer fit its new meaning, which is said where there are some.
    pub fn outcome(&self, updated: bool, id: u128, links: Option<u64>, loc: &Locale) -> (r:
        ToolOutcome)
        ensures
            ({
                let done = loc.text1(
                    "tool.note_revise.result.done"@,
                    "id"@,
                    ids::hyphenated(id),
                );
                r.says(
                    if !updated {
                        loc.text1("notes.result.not_found"@, "id"@, ids::hyphenated(id))
                    } else if links is Some && links->0 > 0 {
                        done + "\n"@ + loc.text1(
                            "tool.note_revise.warn.links"@,
                            "links"@,
                            text::decimal(links->0 as nat),
                        )
                    } else {
                        done
                    },
                )
            }),
    {
        if !updated {
            return notes::note_not_found(id, loc);
        }
        let shown: String = ids::show(id);
        let mut msg: String = loc.tf1("tool.note_revise.result.done", "id", shown.as_str());
        match links {
            Some(n) => if n > 0 {
                msg.push_str("\n");
                let count: String = text::dec(n);
                let warning: String = loc.tf1(
                    "tool.note_revise.warn.links",
                    "links",
                    count.as_str(),
                );
                msg.push_str(warning.as_str());
            },
            None => {},
        }
        ToolOutcome::text(msg)
    }
}

// ---------- note_supersede ----------

/// `note_supersede`.
pub struct NoteSupersede;

impl NoteSupersede {
    /// Reads the arguments: which note, and the content of the one in its place.
    pub fn arguments(&self, args: &Json, loc: &Locale) -> (r: Result<(u128, String), String>)
        ensures
            ({
                let raw = notes::raw_id(args@, "old_id"@);
                let content = notes::content_arg(args@);
                match r {
                    Ok(a) => ids::id_of(raw) == Some(a.0) && content == Some(a.1@) && a.1@.len()
                        > 0,
                    Err(e) => {
                        ||| ids::id_of(raw) is None && e@ == loc.text2(
                            "notes.err.bad_id_field"@,
                            "key"@,
                            "old_id"@,
                            "raw"@,
                            raw,
                        )
                        ||| ids::id_of(raw) is Some && content is None && e@ == loc.text(
                            "notes.err.content_string"@,
                        )
                        ||| ids::id_of(raw) is Some && content is Some && content->0.len() == 0
                            && e@ == loc.text("notes.err.content_empty"@)
                    },
                }
            }),
    {
        match notes::parse_id(args, "old_id", loc) {
            Err(e) => Err(e),
            Ok(id) => match notes::parse_content(args, loc) {
                Ok(content) => Ok((id, content)),
                Err(e) => Err(e),
            },
        }
    }

    /// The tags of the new version: those of the old one, so that a note about the
    /// assistant itself stays one.
    pub fn tags(&self, old_note: &Option<Note>) -> (r: Vec<String>)
        ensures
            text::views(r@) == match *old_note {
                Some(n) => n@.tags,
                None => Seq::empty(),
            },
    {
        match old_note {
            Some(n) => notes::copy_texts(&n.tags),
            None => {
                let none: Vec<String> = Vec::new();
                assert(text::views(none@) =~= Seq::<Seq<char>>::empty());
                none
            },
        }
    }

    /// The answer, once the new version stands in place of the old one.
    pub fn outcome(&self, old_id: u128, new_id: u128, loc: &Locale) -> (r: ToolOutcome)
        ensures
            r.says(
                loc.text2(
                    "tool.note_supersede.result.done"@,
                    "old_id"@,
                    ids::hyphenated(old_id),
                    "new_id"@,
                    ids::hyphenated(new_id),
                ),
            ),
    {
        let a: String = ids::show(old_id);
        let b: String = ids::show(new_id);
        ToolOutcome::text(
            loc.tf2(
                "tool.note_supersede.result.done",
                "old_id",
                a.as_str(),
                "new_id",
                b.as_str(),
            ),
        )
    }
}

// ---------- note_merge ----------

/// `note_merge`.
pub struct NoteMerge;

/// The identifiers among these texts.
pub open spec fn ids_among(texts: Seq<Seq<char>>) -> Seq<u128>
    decreases texts.len(),
{
    if texts.len() == 0 {
        Seq::empty()
    } else {
        let before = ids_among(texts.drop_last());
        match ids::id_of(text::trimmed(texts.last())) {
            Some(id) => before.push(id),
            None => before,
        }
    }
}

/// Those of the identifiers whose notes are in force, each once.
pub open spec fn in_force(ids: Seq<u128>, active: Seq<bool>) -> Seq<u128>
    decreases ids.len(),
{
    if ids.len() == 0 {
        Seq::empty()
    } else {
        let before = in_force(ids.drop_last(), active.drop_last());
        if active.last() && !before.contains(ids.last()) {
            before.push(ids.last())
        } else {
            before
        }
    }
}

fn has_id(v: &Vec<u128>, id: u128) -> (r: bool)
    ensures
        r == v@.contains(id),
{
    let mut i: usize = 0;
    while i < v.len()
        invariant
            i <= v.len(),
            forall|j: int| 0 <= j < i ==> #[trigger] v@[j] != id,
        decreases v.len() - i,
    {
        if v[i] == id {
            return true;
        }
        i = i + 1;
    }
    false
}

/// The tags of several notes, each once, in the order they are met.
pub open spec fn union_of(tags: Seq<Seq<char>>, more: Seq<Seq<char>>) -> Seq<Seq<char>>
    decreases more.len(),
{
    if more.len() == 0 {
        tags
    } else {
        let before = union_of(tags, more.drop_last());
        if before.contains(more.last()) {
            before
        } else {
            before.push(more.last())
        }
    }
}

pub open spec fn merged(notes: Seq<NoteView>) -> Seq<Seq<char>>
    decreases notes.len(),
{
    if notes.len() == 0 {
        Seq::empty()
    } else {
        union_of(merged(notes.drop_last()), notes.last().tags)
    }
}

impl NoteMerge {
    /// Reads the arguments: the content of the merged note, and the identifiers of
    /// the notes to merge, without what is none.
    pub fn arguments(&self, args: &Json, loc: &Locale) -> (r: Result<(String, Vec<u128>), String>)
        ensures
            ({
                let content = notes::content_arg(args@);
                match r {
                    Ok(a) => content == Some(a.0@) && a.0@.len() > 0 && a.1@ == ids_among(
                        args@.strings_at("ids"@),
                    ),
                    Err(e) => {
                        ||| content is None && e@ == loc.text("notes.err.content_string"@)
                        ||| content is Some && content->0.len() == 0 && e@ == loc.text(
                            "notes.err.content_empty"@,
                        )
                    },
                }
            }),
    {
        let content: String = match notes::parse_content(args, loc) {
            Ok(c) => c,
            Err(e) => {
                return Err(e);
            },
        };
        let texts: Vec<String> = args.get_strings("ids");
        let ghost all = text::views(texts@);
        let mut found: Vec<u128> = Vec::new();
        let mut i: usize = 0;
        assert(all.take(0) =~= Seq::<Seq<char>>::empty());
        while i < texts.len()
            invariant
                i <= texts.len(),
                all == text::views(texts@),
                found@ == ids_among(all.take(i as int)),
            decreases texts.len() - i,
        {
            assert(all.take(i + 1).drop_last() =~= all.take(i as int));
            assert(all.take(i + 1).last() == texts@[i as int]@);
            let t: String = text::trim(texts[i].as_str());
            match ids::parse(t.as_str()) {
                Some(id) => {
                    found.push(id);
                },
                None => {},
            }
            i = i + 1;
        }
        assert(all.take(i as int) =~= all);
        Ok((content, found))
    }

    /// The notes to merge, by which of them are in force: there must be two different
    /// ones.
    pub fn sources(&self, found: &Vec<u128>, active: &Vec<bool>, loc: &Locale) -> (r: Result<
        Vec<u128>,
        String,
    >)
        requires
            found.len() == active.len(),
        ensures
            match r {
                Ok(v) => v@ == in_force(found@, active@) && v@.len() >= 2 && v@.no_duplicates(),
                Err(e) => in_force(found@, active@).len() < 2 && e@ == loc.text(
                    "tool.note_merge.err.min_two"@,
                ),
            },
    {
        let mut v: Vec<u128> = Vec::new();
        let mut i: usize = 0;
        assert(found@.take(0) =~= Seq::<u128>::empty());
        while i < found.len()
            invariant
                i <= found.len(),
                found.len() == active.len(),
                v@ == in_force(found@.take(i as int), active@.take(i as int)),
                v@.no_duplicates(),
            decreases found.len() - i,
        {
            assert(found@.take(i + 1).drop_last() =~= found@.take(i as int));
            assert(active@.take(i + 1).drop_last() =~= active@.take(i as int));
            if active[i] && !has_id(&v, found[i]) {
                v.push(found[i]);
            }
            i = i + 1;
        }
        assert(found@.take(i as int) =~= found@);
        assert(active@.take(i as int) =~= active@);
        if v.len() < 2 {
            Err(text::owned(loc.t("tool.note_merge.err.min_two")))
        } else {
            Ok(v)
        }
    }

    /// The tags of the merged note: all that its sources have, each once.
    pub fn tags(&self, sources: &Vec<Note>) -> (r: Vec<String>)
        ensures
            text::views(r@) == merged(notes::note_views(sources@)),
    {
        let ghost all = notes::note_views(sources@);
        let mut r: Vec<String> = Vec::new();
        let mut i: usize = 0;
        assert(all.take(0) =~= Seq::<NoteView>::empty());
        assert(text::views(r@) =~= Seq::<Seq<char>>::empty());
        while i < sources.len()
            invariant
                i <= sources.len(),
                all == notes::note_views(sources@),
                text::views(r@) == merged(all.take(i as int)),
            decreases sources.len() - i,
        {
            assert(all.take(i + 1).drop_last() =~= all.take(i as int));
            assert(all.take(i + 1).last() == sources@[i as int]@);
            let more: &Vec<String> = &sources[i].tags;
            let ghost tags = text::views(r@);
            let ghost these = text::views(more@);
            let mut k: usize = 0;
            assert(these.take(0) =~= Seq::<Seq<char>>::empty());
            while k < more.len()
                invariant
                    k <= more.len(),
                    these == text::views(more@),
                    text::views(r@) == union_of(tags, these.take(k as int)),
                decreases more.len() - k,
            {
                assert(these.take(k + 1).drop_last() =~= these.take(k as int));
                assert(these.take(k + 1).last() == more@[k as int]@);
                if !notes::has_text(&r, more[k].as_str()) {
                    r.push(more[k].clone());
                }
                k = k + 1;
            }
            assert(these.take(k as int) =~= these);
            i = i + 1;
        }
        assert(all.take(i as int) =~= all);
        r
    }

    /// The answer, once the merged note stands in place of its sources.
    pub fn outcome(&self, merged_count: usize, new_id: u128, loc: &Locale) -> (r: ToolOutcome)
        ensures
            r.says(
                loc.text2(
                    "tool.note_merge.result.done"@,
                    "n"@,
                    text::decimal(merged_count as nat),
                    "new_id"@,
                    ids::hyphenated(new_id),
                ),
            ),
    {
        let n: String = text::dec_usize(merged_count);
        let id: String = ids::show(new_id);
        ToolOutcome::text(
            loc.tf2("tool.note_merge.result.done", "n", n.as_str(), "new_id", id.as_str()),
        )
    }
}

proof fn union_has(tags: Seq<Seq<char>>, more: Seq<Seq<char>>, t: Seq<char>)
    ensures
        union_of(tags, more).contains(t) <==> tags.contains(t) || more.contains(t),
        tags.no_duplicates() ==> union_of(tags, more).no_duplicates(),
    decreases more.len(),
{
    if more.len() > 0 {
        let rest = more.drop_last();
        let before = union_of(tags, rest);
        let after = union_of(tags, more);
        union_has(tags, rest, t);
        if after.contains(t) {
            let k = choose|k: int| 0 <= k < after.len() && after[k] == t;
            if k < before.len() {
                assert(before[k] == t);
            } else {
                assert(more[more.len() - 1] == t);
            }
        }
        if rest.contains(t) {
            let k = choose|k: int| 0 <= k < rest.len() && rest[k] == t;
            assert(more[k] == t);
        }
        if more.contains(t) {
            let k = choose|k: int| 0 <= k < more.len() && more[k] == t;
            if k < rest.len() {
                assert(rest[k] == t);
            }
        }
        if before.contains(t) {
            let k = choose|k: int| 0 <= k < before.len() && before[k] == t;
            assert(after[k] == t);
        }
        if !before.contains(more.last()) && more.last() == t {
            assert(after[after.len() - 1] == t);
        }
    }
}

/// The merged note has every tag of its sources and no other, each once; so it is
/// about the assistant itself exactly where one of them is.
pub proof fn a_merged_note_inherits_its_tags(sources: Seq<NoteView>, t: Seq<char>)
    ensures
        merged(sources).contains(t) <==> exists|i: int|
            0 <= i < sources.len() && (#[trigger] sources[i]).tags.contains(t),
        merged(sources).no_duplicates(),
    decreases sources.len(),
{
    if sources.len() > 0 {
        let rest = sources.drop_last();
        a_merged_note_inherits_its_tags(rest, t);
        union_has(merged(rest), sources.last().tags, t);
        if merged(rest).contains(t) {
            let i = choose|i: int| 0 <= i < rest.len() && (#[trigger] rest[i]).tags.contains(t);
            assert(sources[i].tags.contains(t));
        }
        if sources.last().tags.contains(t) {
            assert(sources[sources.len() - 1].tags.contains(t));
        }
        if exists|i: int| 0 <= i < sources.len() && (#[trigger] sources[i]).tags.contains(t) {
            let i = choose|i: int|
                0 <= i < sources.len() && (#[trigger] sources[i]).tags.contains(t);
            if i < rest.len() {
                assert(rest[i].tags.contains(t));
            }
        }
    }
}

} // verus!
