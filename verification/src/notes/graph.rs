//! `note_link` and `note_neighbors`: the links between notes.

use vstd::prelude::*;
use crate::i18n::Locale;
use crate::ids;
use crate::json;
use crate::json::{Json, JsonView};
use crate::notes;
use crate::notes::recall;
use crate::notes::recall::{Neighbor, NeighborView};
use crate::outcome::ToolOutcome;
use crate::text;

verus! {

/// `note_link`.
pub struct NoteLink;

/// A link that is asked for.
#[derive(Debug)]
pub struct LinkArgs {
    pub from: u128,
    pub to: u128,
    pub relation: String,
}

impl NoteLink {
    /// Reads the arguments: two notes that differ, and one of the four relations.
    pub fn arguments(&self, args: &Json, loc: &Locale) -> (r: Result<LinkArgs, String>)
        ensures
            ({
                let from_raw = notes::raw_id(args@, "from_id"@);
                let to_raw = notes::raw_id(args@, "to_id"@);
                let from = ids::id_of(from_raw);
                let to = ids::id_of(to_raw);
                let relation = notes::raw_id(args@, "relation"@);
                match r {
                    Ok(l) => from == Some(l.from) && to == Some(l.to) && l.relation@ == relation
                        && notes::is_relation(relation) && l.from != l.to,
                    Err(e) => {
                        ||| from is None && e@ == loc.text2(
                            "notes.err.bad_id_field"@,
                            "key"@,
                            "from_id"@,
                            "raw"@,
                            from_raw,
                        )
                        ||| from is Some && to is None && e@ == loc.text2(
                            "notes.err.bad_id_field"@,
                            "key"@,
                            "to_id"@,
                            "raw"@,
                            to_raw,
                        )
                        ||| from is Some && to is Some && !notes::is_relation(relation) && e@
                            == loc.text2(
                            "notes.err.unknown_relation"@,
                            "relation"@,
                            relation,
                            "allowed"@,
                            notes::relations_listed(),
                        )
                        ||| from is Some && from == to && notes::is_relation(relation) && e@
                            == loc.text("tool.note_link.err.self"@)
                    },
                }
            }),
    {
        let from: u128 = match notes::parse_id(args, "from_id", loc) {
            Ok(id) => id,
            Err(e) => {
                return Err(e);
            },
        };
        let to: u128 = match notes::parse_id(args, "to_id", loc) {
            Ok(id) => id,
            Err(e) => {
                return Err(e);
            },
        };
        let relation: String = match args.get_str("relation") {
            Some(s) => text::trim(s.as_str()),
            None => text::trim(String::new().as_str()),
        };
        if !notes::known_relation(relation.as_str()) {
            return Err(notes::unknown_relation(relation.as_str(), loc));
        }
        if from == to {
            return Err(text::owned(loc.t("tool.note_link.err.self")));
        }
        Ok(LinkArgs { from, to, relation })
    }

    /// The answer. `created` is nothing where one of the notes is not there, and
    /// otherwise whether the link is new.
    pub fn outcome(&self, l: &LinkArgs, created: Option<bool>, loc: &Locale) -> (r: ToolOutcome)
        ensures
            match created {
                None => r.says(loc.text("tool.note_link.result.missing"@)),
                Some(new) => {
                    &&& r.effects@.len() == 0 && r.prefill is None && r.images@.len() == 0
                    &&& r.wrote == new
                    &&& r.result@ == loc.text4(
                        "tool.note_link.result.line"@,
                        "verb"@,
                        if new {
                            loc.text("tool.note_link.result.created"@)
                        } else {
                            loc.text("tool.note_link.result.existed"@)
                        },
                        "from"@,
                        ids::hyphenated(l.from),
                        "relation"@,
                        l.relation@,
                        "to"@,
                        ids::hyphenated(l.to),
                    )
                },
            },
    {
        match created {
            None => ToolOutcome::text(text::owned(loc.t("tool.note_link.result.missing"))),
            Some(new) => {
                let verb: &str = if new {
                    loc.t("tool.note_link.result.created")
                } else {
                    loc.t("tool.note_link.result.existed")
                };
                let from: String = ids::show(l.from);
                let to: String = ids::show(l.to);
                let line: String = loc.tf4(
                    "tool.note_link.result.line",
                    "verb",
                    verb,
                    "from",
                    from.as_str(),
                    "relation",
                    l.relation.as_str(),
                    "to",
                    to.as_str(),
                );
                ToolOutcome::text(line).wrote_if(new)
            },
        }
    }
}

/// `note_neighbors`.
pub struct NoteNeighbors;

/// The relation that the neighbours are asked by, where one is given.
pub open spec fn asked_relation(args: JsonView) -> Option<Seq<char>> {
    match args.str_at("relation"@) {
        Some(s) if text::trimmed(s).len() > 0 => Some(text::trimmed(s)),
        _ => None,
    }
}

/// A neighbour as `note_neighbors` lists it.
pub open spec fn neighbor_row(n: NeighborView) -> Seq<char> {
    "- "@ + recall::arrow(n.outgoing) + n.relation + " (id="@ + ids::hyphenated(n.note.id) + ") "@
        + n.note.content + "\n"@
}

pub open spec fn neighbor_rows(near: Seq<NeighborView>) -> Seq<char>
    decreases near.len(),
{
    if near.len() == 0 {
        Seq::empty()
    } else {
        neighbor_rows(near.drop_last()) + neighbor_row(near.last())
    }
}

impl NoteNeighbors {
    /// Reads the arguments: a note, and one of the four relations where one is given.
    pub fn arguments(&self, args: &Json, loc: &Locale) -> (r: Result<
        (u128, Option<String>),
        String,
    >)
        ensures
            ({
                let raw = notes::raw_id(args@, "id"@);
                let relation = asked_relation(args@);
                match r {
                    Ok(a) => ids::id_of(raw) == Some(a.0) && json::opt_str(a.1) == relation && (
                    relation is Some ==> notes::is_relation(relation->0)),
                    Err(e) => {
                        ||| ids::id_of(raw) is None && e@ == loc.text2(
                            "notes.err.bad_id_field"@,
                            "key"@,
                            "id"@,
                            "raw"@,
                            raw,
                        )
                        ||| ids::id_of(raw) is Some && relation is Some && !notes::is_relation(
                            relation->0,
                        ) && e@ == loc.text2(
                            "notes.err.unknown_relation"@,
                            "relation"@,
                            relation->0,
                            "allowed"@,
                            notes::relations_listed(),
                        )
                    },
                }
            }),
    {
        let id: u128 = match notes::parse_id(args, "id", loc) {
            Ok(id) => id,
            Err(e) => {
                return Err(e);
            },
        };
        match args.get_str("relation") {
            Some(s) => {
                let relation: String = text::trim(s.as_str());
                if relation.as_str().is_empty() {
                    return Ok((id, None));
                }
                if !notes::known_relation(relation.as_str()) {
                    return Err(notes::unknown_relation(relation.as_str(), loc));
                }
                Ok((id, Some(relation)))
            },
            None => Ok((id, None)),
        }
    }

    /// The answer: the notes linked to this one, with the way each link leads.
    pub fn outcome(&self, id: u128, near: &Vec<Neighbor>, loc: &Locale) -> (r: ToolOutcome)
        ensures
            r.says(
                if near@.len() == 0 {
                    loc.text("tool.note_neighbors.result.empty"@)
                } else {
                    text::no_right_margin(
                        loc.text1(
                            "tool.note_neighbors.result.header"@,
                            "id"@,
                            ids::hyphenated(id),
                        ) + "\n"@ + neighbor_rows(recall::neighbor_views(near@)),
                    )
                },
            ),
    {
        if near.len() == 0 {
            return ToolOutcome::text(text::owned(loc.t("tool.note_neighbors.result.empty")));
        }
        let ghost all = recall::neighbor_views(near@);
        let mut rows: String = String::new();
        let mut i: usize = 0;
        assert(all.take(0) =~= Seq::<NeighborView>::empty());
        while i < near.len()
            invariant
                i <= near.len(),
                all == recall::neighbor_views(near@),
                rows@ == neighbor_rows(all.take(i as int)),
            decreases near.len() - i,
        {
            assert(all.take(i + 1).drop_last() =~= all.take(i as int));
            assert(all.take(i + 1).last() == near@[i as int]@);
            let n: &Neighbor = &near[i];
            let to: &str = if n.outgoing {
                "→"
            } else {
                "←"
            };
            let other: String = ids::show(n.note.id);
            let row: String = text::cat8(
                "- ",
                to,
                n.relation.as_str(),
                " (id=",
                other.as_str(),
                ") ",
                n.note.content.as_str(),
                "\n",
            );
            rows.push_str(row.as_str());
            i = i + 1;
        }
        assert(all.take(i as int) =~= all);
        let shown: String = ids::show(id);
        let head: String = loc.tf1("tool.note_neighbors.result.header", "id", shown.as_str());
        let out: String = text::cat3(head.as_str(), "\n", rows.as_str());
        ToolOutcome::text(text::trim_end(out.as_str()))
    }
}

} // verus!
