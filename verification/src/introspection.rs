//! The tools by which a model sees and changes its own settings: sampling, the
//! chat's system message, and when the user last wrote.
//!
//! A change is not made here: the outcome asks for it, and it takes effect with the
//! next request.

use vstd::prelude::*;
use crate::i18n::Locale;
use crate::json::{Json, JsonView};
use crate::outcome::{ChatEffect, ToolOutcome};
use crate::sampling;
use crate::sampling::{CloudProvider, FieldKind, SamplingConfig};
use crate::text;
use crate::times;
use crate::times::Moment;

verus! {

broadcast use text::views_push;

pub const GET_SAMPLING_ID: &'static str = "get_sampling";

pub const SET_SAMPLING_ID: &'static str = "set_sampling";

pub const GET_SYSTEM_MESSAGE_ID: &'static str = "get_system_message";

pub const SET_SYSTEM_MESSAGE_ID: &'static str = "set_system_message";

pub const GET_LAST_USER_MESSAGE_TIME_ID: &'static str = "get_last_user_message_time";

// ---------- sampling ----------

/// Which parameters there are in the engine's mode.
pub open spec fn scope_text(provider: Option<CloudProvider>, loc: Locale) -> Seq<char> {
    match provider {
        None => loc.text("tool.sampling.scope_all"@),
        Some(_) => loc.text1(
            "tool.sampling.scope_fields"@,
            "fields"@,
            text::joined(
                sampling::supported_names(provider, sampling::FIELD_COUNT as int),
                ", "@,
            ),
        ),
    }
}

/// Which parameters there are in the engine's mode.
pub fn scope_note(provider: Option<CloudProvider>, loc: &Locale) -> (r: String)
    ensures
        r@ == scope_text(provider, *loc),
{
    match provider {
        None => text::owned(loc.t("tool.sampling.scope_all")),
        Some(_) => {
            let names: Vec<String> = sampling::supported_sampling_fields(provider);
            let listed: String = text::join(&names, ", ");
            loc.tf1("tool.sampling.scope_fields", "fields", listed.as_str())
        },
    }
}

/// `get_sampling`.
pub struct GetSampling {
    /// The cloud provider of the chat engine; none where the engine is local.
    pub provider: Option<CloudProvider>,
}

impl GetSampling {
    pub fn new(provider: Option<CloudProvider>) -> (r: Self)
        ensures
            r.provider == provider,
    {
        GetSampling { provider }
    }

    /// What the tool is for.
    pub fn description(&self, loc: &Locale) -> (r: String)
        ensures
            r@ == loc.text("tool.get_sampling.desc"@) + " "@ + scope_text(self.provider, *loc),
    {
        let note: String = scope_note(self.provider, loc);
        text::cat3(loc.t("tool.get_sampling.desc"), " ", note.as_str())
    }

    /// The answer: the parameters in force that the engine takes.
    pub fn outcome(&self, effective: &SamplingConfig) -> (r: ToolOutcome)
        ensures
            r.says(sampling::supported_json(effective@, self.provider)),
    {
        ToolOutcome::text(sampling::filter_to_supported(effective, self.provider))
    }
}

/// `set_sampling`.
pub struct SetSampling {
    /// The cloud provider of the chat engine; none where the engine is local.
    pub provider: Option<CloudProvider>,
}

/// The members whose field the engine takes, or those whose field it does not, among
/// the first `n`.
pub open spec fn members_by(
    pairs: Seq<(Seq<char>, Seq<char>)>,
    provider: Option<CloudProvider>,
    supported: bool,
    n: int,
) -> Seq<(Seq<char>, Seq<char>)>
    decreases n,
{
    if n <= 0 {
        Seq::empty()
    } else if sampling::is_supported(provider, pairs[n - 1].0) == supported {
        members_by(pairs, provider, supported, n - 1).push(pairs[n - 1])
    } else {
        members_by(pairs, provider, supported, n - 1)
    }
}

pub open spec fn first_parts(pairs: Seq<(Seq<char>, Seq<char>)>) -> Seq<Seq<char>> {
    pairs.map_values(|p: (Seq<char>, Seq<char>)| p.0)
}

/// The members that a call gives; nothing where it gives no object.
pub open spec fn given(args: JsonView) -> Option<Seq<(Seq<char>, Seq<char>)>> {
    match args {
        JsonView::Obj(pairs) => Some(pairs),
        JsonView::Null => Some(Seq::empty()),
        _ => None,
    }
}

/// The fields of a call that the engine does not take, in order.
pub open spec fn dropped_names(
    pairs: Seq<(Seq<char>, Seq<char>)>,
    provider: Option<CloudProvider>,
) -> Seq<Seq<char>> {
    text::ordered(first_parts(members_by(pairs, provider, false, pairs.len() as int)))
}

/// What a change is answered with.
pub open spec fn change_text(
    new: Seq<Option<Seq<char>>>,
    dropped: Seq<Seq<char>>,
    provider: Option<CloudProvider>,
    loc: Locale,
) -> Seq<char> {
    let done = loc.text1(
        "tool.set_sampling.result.updated"@,
        "json"@,
        sampling::supported_json(new, provider),
    );
    if dropped.len() == 0 {
        done
    } else {
        done + loc.text1(
            "tool.set_sampling.result.dropped"@,
            "fields"@,
            text::joined(dropped, ", "@),
        )
    }
}

impl SetSampling {
    pub fn new(provider: Option<CloudProvider>) -> (r: Self)
        ensures
            r.provider == provider,
    {
        SetSampling { provider }
    }

    /// What the tool is for.
    pub fn description(&self, loc: &Locale) -> (r: String)
        ensures
            r@ == loc.text("tool.set_sampling.desc"@) + " "@ + scope_text(self.provider, *loc),
    {
        let note: String = scope_note(self.provider, loc);
        text::cat3(loc.t("tool.set_sampling.desc"), " ", note.as_str())
    }

    /// Parts the members of a call into those whose field the engine takes and the
    /// names of the others. A call that gives no object is wrong; `written` is how its
    /// arguments are written.
    pub fn arguments(&self, args: &Json, written: &str, loc: &Locale) -> (r: Result<
        (Vec<(String, String)>, Vec<String>),
        String,
    >)
        ensures
            match r {
                Ok(x) => given(args@) is Some && crate::json::pair_views((x.0)@) == members_by(
                    given(args@)->0,
                    self.provider,
                    true,
                    (given(args@)->0).len() as int,
                ) && text::views((x.1)@) == dropped_names(given(args@)->0, self.provider),
                Err(e) => given(args@) is None && e@ == loc.text1(
                    "tool.set_sampling.err.not_object"@,
                    "value"@,
                    written@,
                ),
            },
    {
        match args {
            Json::Obj(pairs) => {
                let (kept, dropped) = part_members(pairs, self.provider);
                Ok((kept, text::sort(dropped)))
            },
            Json::Null => {
                let none: Vec<(String, String)> = Vec::new();
                let (kept, dropped) = part_members(&none, self.provider);
                assert(crate::json::pair_views(none@) =~= Seq::empty());
                Ok((kept, text::sort(dropped)))
            },
            _ => Err(loc.tf1("tool.set_sampling.err.not_object", "value", written)),
        }
    }

    /// The parameters that the members of a call set. A value that its field does not
    /// take makes the call wrong; the first one is named.
    pub fn patch(&self, members: &Vec<(String, String)>, loc: &Locale) -> (r: Result<
        SamplingConfig,
        String,
    >)
        ensures
            ({
                let all = crate::json::pair_views(members@);
                let i = sampling::misfit_from(all, 0);
                match r {
                    Ok(c) => i < 0 && c@ == sampling::members_said(all),
                    Err(e) => i >= 0 && e@ == loc.text1(
                        "tool.set_sampling.err.bad_value"@,
                        "e"@,
                        all[i].0 + ": "@ + all[i].1,
                    ),
                }
            }),
    {
        match sampling::find_misfit(members) {
            Some(i) => {
                assert(crate::json::pair_views(members@)[i as int] == (
                    members@[i as int].0@,
                    members@[i as int].1@,
                ));
                let why: String = text::cat3(members[i].0.as_str(), ": ", members[i].1.as_str());
                Err(loc.tf1("tool.set_sampling.err.bad_value", "e", why.as_str()))
            },
            None => Ok(sampling::from_members(members)),
        }
    }

    /// The answer to a change: the parameters as they will be, and the effect that
    /// makes them so. What was passed over is named.
    pub fn outcome(
        &self,
        effective: &SamplingConfig,
        patch: &SamplingConfig,
        dropped: &Vec<String>,
        loc: &Locale,
    ) -> (r: ToolOutcome)
        ensures
            ({
                let new = sampling::merged(effective@, patch@);
                &&& r.result@ == change_text(new, text::views(dropped@), self.provider, *loc)
                &&& r.effects@.len() == 1
                &&& r.effects@[0] matches ChatEffect::SetSamplingOverride(s) && s@ == new
                &&& !r.wrote
                &&& r.prefill is None && r.images@.len() == 0
            }),
    {
        let new: SamplingConfig = sampling::merge_sampling(effective, patch);
        let json: String = sampling::filter_to_supported(&new, self.provider);
        let mut result: String = loc.tf1("tool.set_sampling.result.updated", "json", json.as_str());
        assert(text::views(dropped@).len() == dropped@.len());
        if dropped.len() > 0 {
            let listed: String = text::join(dropped, ", ");
            let rest: String = loc.tf1(
                "tool.set_sampling.result.dropped",
                "fields",
                listed.as_str(),
            );
            result.push_str(rest.as_str());
        }
        let mut effects: Vec<ChatEffect> = Vec::new();
        effects.push(ChatEffect::SetSamplingOverride(Box::new(new)));
        ToolOutcome::with_effects(result, effects)
    }
}

fn part_members(pairs: &Vec<(String, String)>, provider: Option<CloudProvider>) -> (r: (
    Vec<(String, String)>,
    Vec<String>,
))
    ensures
        ({
            let all = crate::json::pair_views(pairs@);
            crate::json::pair_views((r.0)@) == members_by(all, provider, true, all.len() as int)
                && text::views((r.1)@) == first_parts(
                members_by(all, provider, false, all.len() as int),
            )
        }),
{
    let ghost all = crate::json::pair_views(pairs@);
    let mut kept: Vec<(String, String)> = Vec::new();
    let mut dropped: Vec<String> = Vec::new();
    let mut i: usize = 0;
    assert(crate::json::pair_views(kept@) =~= Seq::<(Seq<char>, Seq<char>)>::empty());
    assert(text::views(dropped@) =~= first_parts(Seq::empty()));
    while i < pairs.len()
        invariant
            i <= pairs.len(),
            all == crate::json::pair_views(pairs@),
            crate::json::pair_views(kept@) == members_by(all, provider, true, i as int),
            text::views(dropped@) =~= first_parts(members_by(all, provider, false, i as int)),
        decreases pairs.len() - i,
    {
        broadcast use crate::json::pair_views_push;

        assert(all[i as int] == (pairs@[i as int].0@, pairs@[i as int].1@));
        if sampling::supports(provider, pairs[i].0.as_str()) {
            kept.push((pairs[i].0.clone(), pairs[i].1.clone()));
        } else {
            let ghost before = members_by(all, provider, false, i as int);
            dropped.push(pairs[i].0.clone());
            assert(first_parts(before.push(all[i as int])) =~= first_parts(before).push(
                all[i as int].0,
            ));
        }
        i = i + 1;
    }
    (kept, dropped)
}

/// The names and kinds of the fields that a tool may set.
pub open spec fn settable_fields() -> Seq<(Seq<char>, FieldKind)> {
    Seq::new(
        sampling::SETTABLE_COUNT as nat,
        |i: int| (sampling::FIELDS@[i].0@, sampling::FIELDS@[i].1),
    )
}

/// The names and kinds of the fields that a tool may set.
pub fn field_schemas() -> (r: Vec<(&'static str, FieldKind)>)
    ensures
        r@.map_values(|p: (&'static str, FieldKind)| (p.0@, p.1)) == settable_fields(),
{
    let mut r: Vec<(&'static str, FieldKind)> = Vec::new();
    let mut i: usize = 0;
    while i < sampling::SETTABLE_COUNT
        invariant
            i <= sampling::SETTABLE_COUNT,
            sampling::FIELDS@.len() == sampling::FIELD_COUNT,
            r@.len() == i,
            forall|j: int|
                0 <= j < i ==> (#[trigger] r@[j]).0@ == sampling::FIELDS@[j].0@ && r@[j].1
                    == sampling::FIELDS@[j].1,
        decreases sampling::SETTABLE_COUNT - i,
    {
        r.push(sampling::FIELDS[i]);
        i = i + 1;
    }
    assert(r@.map_values(|p: (&'static str, FieldKind)| (p.0@, p.1)) =~= settable_fields());
    r
}

// ---------- the system message ----------

/// `get_system_message`.
pub struct GetSystemMessage;

impl GetSystemMessage {
    /// The answer: the message itself.
    pub fn outcome(&self, system_message: &str) -> (r: ToolOutcome)
        ensures
            r.says(system_message@),
    {
        ToolOutcome::text(text::owned(system_message))
    }
}

/// `set_system_message`.
pub struct SetSystemMessage;

impl SetSystemMessage {
    /// The answer, with the effect that exchanges the message. A call without one is
    /// wrong.
    pub fn outcome(&self, args: &Json, loc: &Locale) -> (r: Result<ToolOutcome, String>)
        ensures
            match r {
                Ok(o) => args@.str_at("system_message"@) is Some && o.result@ == loc.text(
                    "tool.set_system_message.result"@,
                ) && o.effects@.len() == 1 && (o.effects@[0] matches ChatEffect::SetSystemMessage(s)
                    && Some(s@) == args@.str_at("system_message"@)) && !o.wrote && o.prefill
                    is None && o.images@.len() == 0,
                Err(e) => args@.str_at("system_message"@) is None && e@ == loc.text(
                    "tool.set_system_message.err.missing"@,
                ),
            },
    {
        match args.get_str("system_message") {
            Some(s) => {
                let mut effects: Vec<ChatEffect> = Vec::new();
                effects.push(ChatEffect::SetSystemMessage(s));
                Ok(
                    ToolOutcome::with_effects(
                        text::owned(loc.t("tool.set_system_message.result")),
                        effects,
                    ),
                )
            },
            None => Err(text::owned(loc.t("tool.set_system_message.err.missing"))),
        }
    }
}

// ---------- the user's last message ----------

/// `get_last_user_message_time`.
pub struct GetLastUserMessageTime;

/// A span of time, roughly: in seconds, minutes, hours or days.
pub open spec fn span_text(secs: int, loc: Locale) -> Seq<char> {
    if secs < 60 {
        loc.text1("tool.elapsed.seconds"@, "n"@, text::decimal(secs as nat))
    } else if secs < 3600 {
        loc.text1("tool.elapsed.minutes"@, "n"@, text::decimal((secs / 60) as nat))
    } else if secs < 86400 {
        loc.text1("tool.elapsed.hours"@, "n"@, text::decimal((secs / 3600) as nat))
    } else {
        loc.text1("tool.elapsed.days"@, "n"@, text::decimal((secs / 86400) as nat))
    }
}

/// A span of time, roughly.
pub fn humanize(secs: u64, loc: &Locale) -> (r: String)
    ensures
        r@ == span_text(secs as int, *loc),
{
    if secs < 60 {
        let n: String = text::dec(secs);
        loc.tf1("tool.elapsed.seconds", "n", n.as_str())
    } else if secs < 3600 {
        let n: String = text::dec(secs / 60);
        loc.tf1("tool.elapsed.minutes", "n", n.as_str())
    } else if secs < 86400 {
        let n: String = text::dec(secs / 3600);
        loc.tf1("tool.elapsed.hours", "n", n.as_str())
    } else {
        let n: String = text::dec(secs / 86400);
        loc.tf1("tool.elapsed.days", "n", n.as_str())
    }
}

/// How long ago a moment was, in whole seconds; none where it is still to come.
pub open spec fn elapsed(then: Moment, now: Moment) -> int {
    let whole = now.secs - then.secs;
    let s = if whole > 0 && now.nanos < then.nanos {
        whole - 1
    } else {
        whole
    };
    if s < 0 {
        0
    } else {
        s
    }
}

fn seconds_since(then: Moment, now: Moment) -> (r: u64)
    ensures
        r == elapsed(then, now),
{
    let whole: i128 = now.secs as i128 - then.secs as i128;
    let s: i128 = if whole > 0 && now.nanos < then.nanos {
        whole - 1
    } else {
        whole
    };
    if s < 0 {
        0
    } else {
        s as u64
    }
}

/// When the user last wrote, and how long ago that was.
pub open spec fn last_message_text(then: Moment, now: Moment, loc: Locale) -> Seq<char> {
    loc.text2(
        "tool.get_last_user_message_time.result"@,
        "time"@,
        crate::datetime::or_empty(times::strftime(then.secs, then.nanos, 0, "%+"@)),
        "ago"@,
        span_text(elapsed(then, now), loc),
    )
}

/// When the user last wrote: `written` is the time of it.
pub fn show_last_message(written: &str, ago: u64, loc: &Locale) -> (r: String)
    ensures
        r@ == loc.text2(
            "tool.get_last_user_message_time.result"@,
            "time"@,
            written@,
            "ago"@,
            span_text(ago as int, *loc),
        ),
{
    let span: String = humanize(ago, loc);
    loc.tf2(
        "tool.get_last_user_message_time.result",
        "time",
        written,
        "ago",
        span.as_str(),
    )
}

impl GetLastUserMessageTime {
    /// The answer at a moment.
    pub fn outcome(&self, last: Option<Moment>, now: Moment, loc: &Locale) -> (r: ToolOutcome)
        ensures
            r.says(
                match last {
                    None => loc.text("tool.get_last_user_message_time.none"@),
                    Some(then) => last_message_text(then, now, *loc),
                },
            ),
    {
        match last {
            None => ToolOutcome::text(text::owned(loc.t("tool.get_last_user_message_time.none"))),
            Some(then) => {
                let written: String = match times::format_at(then.secs, then.nanos, 0, "%+") {
                    Some(s) => s,
                    None => String::new(),
                };
                let ago: u64 = seconds_since(then, now);
                ToolOutcome::text(show_last_message(written.as_str(), ago, loc))
            },
        }
    }
}

} // verus!
