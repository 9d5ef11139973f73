//! `note_cite_source`: tying a note to a source of the knowledge base.

use vstd::prelude::*;
use crate::i18n::Locale;
use crate::ids;
use crate::json::Json;
use crate::notes;
use crate::outcome::ToolOutcome;
use crate::text;

verus! {

/// `note_cite_source`.
pub struct NoteCiteSource;

/// What was found of a note and a source.
#[derive(Debug, Clone, Copy, PartialEq, Eq, Structural)]
pub enum Citation {
    /// The note is not there.
    NoNote,
    /// The source is not there.
    NoSource,
    /// The note cites it from now on.
    Created,
    /// The note cited it already.
    Existed,
}

impl NoteCiteSource {
    /// Reads the arguments: a note, and the name of a source.
    pub fn arguments(&self, args: &Json, loc: &Locale) -> (r: Result<(u128, String), String>)
        ensures
            ({
                let raw = notes::raw_id(args@, "note_id"@);
                let source = notes::raw_id(args@, "source"@);
                match r {
                    Ok(a) => ids::id_of(raw) == Some(a.0) && a.1@ == source && source.len() > 0,
                    Err(e) => {
                        ||| ids::id_of(raw) is None && e@ == loc.text2(
                            "notes.err.bad_id_field"@,
                            "key"@,
                            "note_id"@,
                            "raw"@,
                            raw,
                        )
                        ||| ids::id_of(raw) is Some && source.len() == 0 && e@ == loc.text(
                            "tool.note_cite_source.err.source_empty"@,
                        )
                    },
                }
            }),
    {
        let id: u128 = match notes::parse_id(args, "note_id", loc) {
            Ok(id) => id,
            Err(e) => {
                return Err(e);
            },
        };
        let source: String = match args.get_str("source") {
            Some(s) => text::trim(s.as_str()),
            None => text::trim(String::new().as_str()),
        };
        if source.as_str().is_empty() {
            return Err(text::owned(loc.t("tool.note_cite_source.err.source_empty")));
        }
        Ok((id, source))
    }

    /// The answer, by what was found.
    pub fn outcome(&self, id: u128, source: &str, found: Citation, loc: &Locale) -> (r: ToolOutcome)
        ensures
            r.says(
                match found {
                    Citation::NoNote => loc.text1(
                        "tool.note_cite_source.result.note_missing"@,
                        "id"@,
                        ids::hyphenated(id),
                    ),
                    Citation::NoSource => loc.text1(
                        "tool.note_cite_source.result.source_missing"@,
                        "source"@,
                        source@,
                    ),
                    Citation::Created => loc.text3(
                        "tool.note_cite_source.result.line"@,
                        "verb"@,
                        loc.text("tool.note_cite_source.result.created"@),
                        "note_id"@,
                        ids::hyphenated(id),
                        "source"@,
                        source@,
                    ),
                    Citation::Existed => loc.text3(
                        "tool.note_cite_source.result.line"@,
                        "verb"@,
                        loc.text("tool.note_cite_source.result.existed"@),
                        "note_id"@,
                        ids::hyphenated(id),
                        "source"@,
                        source@,
                    ),
                },
            ),
    {
        let shown: String = ids::show(id);
        let verb: &str = match found {
            Citation::NoNote => {
                return ToolOutcome::text(
                    loc.tf1("tool.note_cite_source.result.note_missing", "id", shown.as_str()),
                );
            },
            Citation::NoSource => {
                return ToolOutcome::text(
                    loc.tf1("tool.note_cite_source.result.source_missing", "source", source),
                );
            },
            Citation::Created => loc.t("tool.note_cite_source.result.created"),
            Citation::Existed => loc.t("tool.note_cite_source.result.existed"),
        };
        ToolOutcome::text(
            loc.tf3(
                "tool.note_cite_source.result.line",
                "verb",
                verb,
                "note_id",
                shown.as_str(),
                "source",
                source,
            ),
        )
    }
}

} // verus!
