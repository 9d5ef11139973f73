//! `get_llm_name` and `get_llm_history`: which language model speaks, and which ones
//! spoke before.

use vstd::prelude::*;
use crate::i18n::Locale;
use crate::outcome::ToolOutcome;
use crate::text;
use crate::times;

verus! {

pub const GET_LLM_NAME_ID: &'static str = "get_llm_name";

pub const GET_LLM_HISTORY_ID: &'static str = "get_llm_history";

/// `get_llm_name`.
pub struct GetLlmName;

impl GetLlmName {
    /// The model's name and how it is run; where the engine does not tell the name,
    /// that it does not.
    pub fn outcome(&self, model: &Option<String>, mode: &str, loc: &Locale) -> (r: ToolOutcome)
        ensures
            r.says(
                match *model {
                    Some(name) => loc.text2(
                        "tool.get_llm_name.result"@,
                        "name"@,
                        name@,
                        "mode"@,
                        mode@,
                    ),
                    None => loc.text1("tool.get_llm_name.unknown"@, "mode"@, mode@),
                },
            ),
    {
        match model {
            Some(name) => ToolOutcome::text(
                loc.tf2("tool.get_llm_name.result", "name", name.as_str(), "mode", mode),
            ),
            None => ToolOutcome::text(loc.tf1("tool.get_llm_name.unknown", "mode", mode)),
        }
    }
}

/// A change of the model.
#[derive(Debug)]
pub struct LlmChange {
    /// Seconds since the epoch.
    pub changed_at: i64,
    pub model: String,
    /// How it was run.
    pub mode: String,
}

/// When a change took place.
pub open spec fn change_date(c: LlmChange) -> Option<Seq<char>> {
    times::strftime(c.changed_at, 0, 0, "%Y-%m-%d %H:%M UTC"@)
}

/// A change as it is listed, by the date as it was written.
pub open spec fn change_line(date: Seq<char>, model: Seq<char>, mode: Seq<char>) -> Seq<char> {
    date + " — "@ + model + " ("@ + mode + ")"@
}

/// A change as it is listed.
pub fn show_change(date: &str, model: &str, mode: &str) -> (r: String)
    ensures
        r@ == change_line(date@, model@, mode@),
{
    text::cat6(date, " — ", model, " (", mode, ")")
}

pub open spec fn change_rows(records: Seq<LlmChange>) -> Seq<char>
    decreases records.len(),
{
    if records.len() == 0 {
        Seq::empty()
    } else {
        let c = records.last();
        change_rows(records.drop_last()) + "\n"@ + change_line(
            crate::datetime::or_empty(change_date(c)),
            c.model@,
            c.mode@,
        )
    }
}

/// `get_llm_history`.
pub struct GetLlmHistory;

impl GetLlmHistory {
    /// The models that spoke, in the order they are recorded; where none is recorded,
    /// that, and the one that speaks now where it is known.
    pub fn outcome(
        &self,
        records: &Vec<LlmChange>,
        model: &Option<String>,
        mode: &str,
        loc: &Locale,
    ) -> (r: ToolOutcome)
        ensures
            r.says(
                if records@.len() > 0 {
                    loc.text1(
                        "tool.get_llm_history.header"@,
                        "count"@,
                        text::decimal(records@.len()),
                    ) + change_rows(records@)
                } else {
                    match *model {
                        Some(name) => loc.text("tool.get_llm_history.empty"@) + " "@ + loc.text2(
                            "tool.get_llm_history.current"@,
                            "name"@,
                            name@,
                            "mode"@,
                            mode@,
                        ),
                        None => loc.text("tool.get_llm_history.empty"@),
                    }
                },
            ),
    {
        if records.len() == 0 {
            let empty: &str = loc.t("tool.get_llm_history.empty");
            return match model {
                Some(name) => {
                    let current: String = loc.tf2(
                        "tool.get_llm_history.current",
                        "name",
                        name.as_str(),
                        "mode",
                        mode,
                    );
                    ToolOutcome::text(text::cat3(empty, " ", current.as_str()))
                },
                None => ToolOutcome::text(text::owned(empty)),
            };
        }
        let n: String = text::dec_usize(records.len());
        let head: String = loc.tf1("tool.get_llm_history.header", "count", n.as_str());
        let mut rows: String = String::new();
        let mut i: usize = 0;
        assert(records@.take(0) =~= Seq::<LlmChange>::empty());
        while i < records.len()
            invariant
                i <= records.len(),
                rows@ == change_rows(records@.take(i as int)),
            decreases records.len() - i,
        {
            assert(records@.take(i + 1).drop_last() =~= records@.take(i as int));
            let date: String = match times::format_at(
                records[i].changed_at,
                0,
                0,
                "%Y-%m-%d %H:%M UTC",
            ) {
                Some(s) => s,
                None => String::new(),
            };
            let line: String = show_change(
                date.as_str(),
                records[i].model.as_str(),
                records[i].mode.as_str(),
            );
            rows.push_str("\n");
            rows.push_str(line.as_str());
            i = i + 1;
        }
        assert(records@.take(i as int) =~= records@);
        ToolOutcome::text(text::cat2(head.as_str(), rows.as_str()))
    }
}

} // verus!
