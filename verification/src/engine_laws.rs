//! What engines, their parameters and plugin servers come to, said of the parameters,
//! names and results.

use vstd::prelude::*;
use crate::i18n::Locale;
use crate::ids;
use crate::introspection;
use crate::json;
use crate::json::JsonView;
use crate::mcp;
use crate::mcp::McpCallResult;
use crate::sampling;
use crate::sampling::{CloudProvider, FieldKind, SamplingConfig};
use crate::text;
use crate::times::Moment;

verus! {

// ---------- the parameters ----------

/// The parameters by name and kind. All but the last one may be set by a tool.
pub proof fn the_parameters()
    ensures
        sampling::FIELDS@.len() == 31 && sampling::FIELD_COUNT == 31 && sampling::SETTABLE_COUNT
            == 30,
        sampling::FIELDS@[0].0@ == "temperature"@ && sampling::FIELDS@[0].1 == FieldKind::Number,
        sampling::FIELDS@[1].0@ == "dynatemp_range"@ && sampling::FIELDS@[1].1 == FieldKind::Number,
        sampling::FIELDS@[2].0@ == "dynatemp_exponent"@ && sampling::FIELDS@[2].1 == FieldKind::Number,
        sampling::FIELDS@[3].0@ == "top_k"@ && sampling::FIELDS@[3].1 == FieldKind::Integer,
        sampling::FIELDS@[4].0@ == "top_p"@ && sampling::FIELDS@[4].1 == FieldKind::Number,
        sampling::FIELDS@[5].0@ == "min_p"@ && sampling::FIELDS@[5].1 == FieldKind::Number,
        sampling::FIELDS@[6].0@ == "top_n_sigma"@ && sampling::FIELDS@[6].1 == FieldKind::Number,
        sampling::FIELDS@[7].0@ == "typical_p"@ && sampling::FIELDS@[7].1 == FieldKind::Number,
        sampling::FIELDS@[8].0@ == "adaptive_target"@ && sampling::FIELDS@[8].1 == FieldKind::Number,
        sampling::FIELDS@[9].0@ == "adaptive_decay"@ && sampling::FIELDS@[9].1 == FieldKind::Number,
        sampling::FIELDS@[10].0@ == "frequency_penalty"@ && sampling::FIELDS@[10].1 == FieldKind::Number,
        sampling::FIELDS@[11].0@ == "presence_penalty"@ && sampling::FIELDS@[11].1 == FieldKind::Number,
        sampling::FIELDS@[12].0@ == "repeat_penalty"@ && sampling::FIELDS@[12].1 == FieldKind::Number,
        sampling::FIELDS@[13].0@ == "repeat_last_n"@ && sampling::FIELDS@[13].1 == FieldKind::Integer,
        sampling::FIELDS@[14].0@ == "dry_multiplier"@ && sampling::FIELDS@[14].1 == FieldKind::Number,
        sampling::FIELDS@[15].0@ == "dry_base"@ && sampling::FIELDS@[15].1 == FieldKind::Number,
        sampling::FIELDS@[16].0@ == "dry_allowed_length"@ && sampling::FIELDS@[16].1 == FieldKind::Integer,
        sampling::FIELDS@[17].0@ == "dry_penalty_last_n"@ && sampling::FIELDS@[17].1 == FieldKind::Integer,
        sampling::FIELDS@[18].0@ == "dry_sequence_breakers"@ && sampling::FIELDS@[18].1 == FieldKind::TextList,
        sampling::FIELDS@[19].0@ == "xtc_probability"@ && sampling::FIELDS@[19].1 == FieldKind::Number,
        sampling::FIELDS@[20].0@ == "xtc_threshold"@ && sampling::FIELDS@[20].1 == FieldKind::Number,
        sampling::FIELDS@[21].0@ == "mirostat"@ && sampling::FIELDS@[21].1 == FieldKind::Integer,
        sampling::FIELDS@[22].0@ == "mirostat_tau"@ && sampling::FIELDS@[22].1 == FieldKind::Number,
        sampling::FIELDS@[23].0@ == "mirostat_eta"@ && sampling::FIELDS@[23].1 == FieldKind::Number,
        sampling::FIELDS@[24].0@ == "max_tokens"@ && sampling::FIELDS@[24].1 == FieldKind::Integer,
        sampling::FIELDS@[25].0@ == "seed"@ && sampling::FIELDS@[25].1 == FieldKind::Integer,
        sampling::FIELDS@[26].0@ == "samplers"@ && sampling::FIELDS@[26].1 == FieldKind::TextList,
        sampling::FIELDS@[27].0@ == "thinking"@ && sampling::FIELDS@[27].1 == FieldKind::Flag,
        sampling::FIELDS@[28].0@ == "reasoning_effort"@ && sampling::FIELDS@[28].1 == FieldKind::Effort,
        sampling::FIELDS@[29].0@ == "verbosity"@ && sampling::FIELDS@[29].1 == FieldKind::Verbosity,
        sampling::FIELDS@[30].0@ == "reasoning_budget"@ && sampling::FIELDS@[30].1 == FieldKind::Integer,
        sampling::MAX_TOKENS == 24 && sampling::REASONING_BUDGET == 30,
{
}

/// Each provider takes its own parameters and no other; a local engine takes every one
/// that a tool may set.
pub proof fn each_engine_takes_its_own(name: Seq<char>)
    ensures
        sampling::is_supported(Some(CloudProvider::OpenAi), name) <==> name == "max_tokens"@,
        sampling::is_supported(Some(CloudProvider::Gemini), name) <==> name == "temperature"@
            || name == "top_k"@ || name == "max_tokens"@,
        sampling::is_supported(Some(CloudProvider::Claude), name) <==> name == "max_tokens"@ || name
            == "thinking"@ || name == "reasoning_effort"@,
        sampling::is_supported(None, name) <==> exists|i: int|
            0 <= i < 30 && (#[trigger] sampling::FIELDS@[i]).0@ == name,
{
    reveal_with_fuel(sampling::cloud_takes, 8);
    settable_is_found(name, 0);
}

proof fn settable_is_found(name: Seq<char>, from: int)
    requires
        0 <= from <= 30,
    ensures
        sampling::is_settable(name, from) <==> exists|i: int|
            from <= i < 30 && (#[trigger] sampling::FIELDS@[i]).0@ == name,
    decreases 30 - from,
{
    if from < 30 {
        settable_is_found(name, from + 1);
        if sampling::FIELDS@[from].0@ == name {
        } else if exists|i: int| from <= i < 30 && (#[trigger] sampling::FIELDS@[i]).0@ == name {
            let i = choose|i: int|
                from <= i < 30 && (#[trigger] sampling::FIELDS@[i]).0@ == name;
            assert(from + 1 <= i);
        }
    }
}

/// The parameters that an engine takes come in the order of the table.
pub proof fn one_parameter_more(provider: Option<CloudProvider>, n: int)
    requires
        0 <= n < 31,
    ensures
        sampling::supported_names(provider, 0) == Seq::<Seq<char>>::empty(),
        sampling::supported_names(provider, n + 1) == if sampling::is_supported(
            provider,
            sampling::FIELDS@[n].0@,
        ) {
            sampling::supported_names(provider, n).push(sampling::FIELDS@[n].0@)
        } else {
            sampling::supported_names(provider, n)
        },
{
}

/// A change sets what it has a value for, and everything else stays.
pub proof fn a_change_sets_its_own(base: SamplingConfig, patch: SamplingConfig, i: int)
    requires
        0 <= i < 31,
    ensures
        patch@[i] is Some ==> sampling::merged(base@, patch@)[i] == patch@[i],
        patch@[i] is None ==> sampling::merged(base@, patch@)[i] == base@[i],
        sampling::merged(base@, patch@).len() == 31,
{
}

/// What an object sets is under the parameter's own name; a `null` sets nothing, and
/// neither does what is not there.
pub proof fn an_object_sets_by_name(members: Seq<(Seq<char>, Seq<char>)>, i: int, k: int)
    requires
        0 <= i < 31,
        json::keys_differ(members),
    ensures
        ({
            let name = sampling::FIELDS@[i].0@;
            let set = sampling::members_said(members)[i];
            &&& 0 <= k < members.len() && members[k].0 == name && members[k].1 != "null"@ ==> set
                == Some(members[k].1)
            &&& 0 <= k < members.len() && members[k].0 == name && members[k].1 == "null"@ ==> set
                is None
            &&& (forall|j: int| 0 <= j < members.len() ==> (#[trigger] members[j]).0 != name) ==> set
                is None
        }),
{
    let name = sampling::FIELDS@[i].0@;
    place_of_key(members, name, 0);
    let at = json::key_from(members, name, 0);
    if 0 <= k < members.len() && members[k].0 == name {
        if at < k {
            assert(members[at].0 != members[k].0);
        } else if k < at {
            assert(members[k].0 != members[at].0);
        }
    }
}

proof fn place_of_key(pairs: Seq<(Seq<char>, Seq<char>)>, key: Seq<char>, from: int)
    requires
        0 <= from <= pairs.len(),
    ensures
        ({
            let k = json::key_from(pairs, key, from);
            &&& k == -1 || from <= k < pairs.len() && pairs[k].0 == key
            &&& k == -1 ==> forall|j: int| from <= j < pairs.len() ==> (#[trigger] pairs[j]).0
                != key
        }),
    decreases pairs.len() - from,
{
    if from < pairs.len() && pairs[from].0 != key {
        place_of_key(pairs, key, from + 1);
    }
}

/// A value fits its parameter by its kind: a number, one without a point and an exponent,
/// a list of strings, a truth value, or one of the words. A `null` fits any.
pub proof fn values_fit_by_kind(t: Seq<char>, n: Option<u64>, s: Seq<char>, b: bool, kind: FieldKind)
    ensures
        sampling::fits(kind, JsonView::Null),
        sampling::fits(FieldKind::Number, JsonView::Num(t, n)),
        sampling::fits(FieldKind::Integer, JsonView::Num(t, n)) <==> forall|i: int|
            0 <= i < t.len() ==> #[trigger] t[i] != '.' && t[i] != 'e' && t[i] != 'E',
        sampling::fits(FieldKind::Flag, JsonView::Bool(b)),
        sampling::fits(FieldKind::Effort, JsonView::Str(s)) <==> s == "none"@ || s == "minimal"@
            || s == "low"@ || s == "medium"@ || s == "high"@ || s == "xhigh"@,
        sampling::fits(FieldKind::Verbosity, JsonView::Str(s)) <==> s == "low"@ || s == "medium"@
            || s == "high"@,
        !sampling::fits(FieldKind::Number, JsonView::Str(s)) && !sampling::fits(
            FieldKind::Integer,
            JsonView::Str(s),
        ) && !sampling::fits(FieldKind::Flag, JsonView::Str(s)) && !sampling::fits(
            FieldKind::TextList,
            JsonView::Str(s),
        ),
        !sampling::fits(FieldKind::Flag, JsonView::Num(t, n)) && !sampling::fits(
            FieldKind::Effort,
            JsonView::Num(t, n),
        ) && !sampling::fits(FieldKind::Number, JsonView::Bool(b)),
{
    let whole = forall|i: int| 0 <= i < t.len() ==> #[trigger] t[i] != '.' && t[i] != 'e' && t[i]
        != 'E';
    if whole {
        assert(sampling::is_whole(t));
    } else {
        let i = choose|i: int|
            0 <= i < t.len() && !(#[trigger] t[i] != '.' && t[i] != 'e' && t[i] != 'E');
        assert(t.contains(t[i]));
    }
    let e = sampling::EFFORTS@;
    assert(e[0]@ == "none"@ && e[1]@ == "minimal"@ && e[2]@ == "low"@ && e[3]@ == "medium"@ && e[4]@
        == "high"@ && e[5]@ == "xhigh"@);
    let v = sampling::VERBOSITIES@;
    assert(v[0]@ == "low"@ && v[1]@ == "medium"@ && v[2]@ == "high"@);
}

/// The member that is named as wrong is the first whose value does not fit; where all
/// fit, none is.
pub proof fn the_first_misfit_is_named(members: Seq<(Seq<char>, Seq<char>)>, from: int)
    requires
        0 <= from <= members.len(),
    ensures
        ({
            let i = sampling::misfit_from(members, from);
            &&& i == -1 || from <= i < members.len() && !sampling::member_fits(members[i])
            &&& i == -1 ==> forall|j: int|
                from <= j < members.len() ==> sampling::member_fits(#[trigger] members[j])
            &&& i >= 0 ==> forall|j: int|
                from <= j < i ==> sampling::member_fits(#[trigger] members[j])
        }),
    decreases members.len() - from,
{
    if from < members.len() && sampling::member_fits(members[from]) {
        the_first_misfit_is_named(members, from + 1);
    }
}

/// The parameters are shown as an object: each that the engine takes once, with its value
/// or `null`, in the order of the names.
pub proof fn parameters_are_shown_by_name(
    cfg: Seq<Option<Seq<char>>>,
    provider: Option<CloudProvider>,
    n: int,
)
    requires
        0 <= n < 31,
    ensures
        sampling::members(cfg, provider, 0) == Seq::<Seq<char>>::empty(),
        sampling::members(cfg, provider, n + 1) == if sampling::is_supported(
            provider,
            sampling::FIELDS@[n].0@,
        ) {
            sampling::members(cfg, provider, n).push(
                "\""@ + sampling::FIELDS@[n].0@ + "\":"@ + match cfg[n] {
                    Some(v) => v,
                    None => "null"@,
                },
            )
        } else {
            sampling::members(cfg, provider, n)
        },
        ({
            let all = sampling::members(cfg, provider, 31);
            let rows = text::ordered(all);
            &&& text::is_ordered(rows)
            &&& rows.to_multiset() == all.to_multiset()
            &&& sampling::supported_json(cfg, provider) == "{"@ + text::joined(rows, ","@) + "}"@
        }),
{
    text::ordered_is_a_permutation(sampling::members(cfg, provider, 31));
}

/// A change of parameters is parted by what the engine takes, in the order of the call.
pub proof fn one_member_more(
    pairs: Seq<(Seq<char>, Seq<char>)>,
    provider: Option<CloudProvider>,
    n: int,
)
    requires
        0 <= n < pairs.len(),
    ensures
        ({
            let kept = |k: int| introspection::members_by(pairs, provider, true, k);
            let dropped = |k: int| introspection::members_by(pairs, provider, false, k);
            &&& kept(0) == Seq::<(Seq<char>, Seq<char>)>::empty()
            &&& dropped(0) == Seq::<(Seq<char>, Seq<char>)>::empty()
            &&& sampling::is_supported(provider, pairs[n].0) ==> kept(n + 1) == kept(n).push(
                pairs[n],
            ) && dropped(n + 1) == dropped(n)
            &&& !sampling::is_supported(provider, pairs[n].0) ==> kept(n + 1) == kept(n)
                && dropped(n + 1) == dropped(n).push(pairs[n])
        }),
{
}

/// What was passed over is named, in order; and nothing is where nothing was.
pub proof fn what_is_passed_over_is_named(
    pairs: Seq<(Seq<char>, Seq<char>)>,
    new: Seq<Option<Seq<char>>>,
    provider: Option<CloudProvider>,
    loc: Locale,
)
    ensures
        ({
            let others = introspection::first_parts(
                introspection::members_by(pairs, provider, false, pairs.len() as int),
            );
            let names = introspection::dropped_names(pairs, provider);
            let done = loc.text1(
                "tool.set_sampling.result.updated"@,
                "json"@,
                sampling::supported_json(new, provider),
            );
            &&& text::is_ordered(names)
            &&& names.to_multiset() == others.to_multiset()
            &&& introspection::change_text(new, Seq::empty(), provider, loc) == done
            &&& names.len() > 0 ==> introspection::change_text(new, names, provider, loc) == done
                + loc.text1(
                "tool.set_sampling.result.dropped"@,
                "fields"@,
                text::joined(names, ", "@),
            )
        }),
{
    let others = introspection::first_parts(
        introspection::members_by(pairs, provider, false, pairs.len() as int),
    );
    text::ordered_is_a_permutation(others);
}

// ---------- time ----------

/// A span is told in the largest unit that it has one whole of, and in whole ones of it.
pub proof fn a_span_is_told_in_whole_units(secs: int, n: int, loc: Locale)
    requires
        secs >= 0,
        n >= 0,
    ensures
        secs == n && n < 60 ==> introspection::span_text(secs, loc) == loc.text1(
            "tool.elapsed.seconds"@,
            "n"@,
            text::decimal(n as nat),
        ),
        60 * n <= secs < 60 * (n + 1) && 1 <= n < 60 ==> introspection::span_text(secs, loc)
            == loc.text1("tool.elapsed.minutes"@, "n"@, text::decimal(n as nat)),
        3600 * n <= secs < 3600 * (n + 1) && 1 <= n < 24 ==> introspection::span_text(secs, loc)
            == loc.text1("tool.elapsed.hours"@, "n"@, text::decimal(n as nat)),
        86400 * n <= secs < 86400 * (n + 1) && 1 <= n ==> introspection::span_text(secs, loc)
            == loc.text1("tool.elapsed.days"@, "n"@, text::decimal(n as nat)),
{
}

/// How long ago a moment was, in whole seconds that have passed; a moment to come was
/// none ago.
pub proof fn elapsed_seconds_are_whole(then: Moment, now: Moment)
    requires
        then.nanos < 1_000_000_000 && now.nanos < 1_000_000_000,
    ensures
        ({
            let passed = (now.secs - then.secs) * 1_000_000_000 + (now.nanos - then.nanos);
            let s = introspection::elapsed(then, now);
            &&& passed >= 0 ==> s * 1_000_000_000 <= passed < (s + 1) * 1_000_000_000
            &&& passed < 0 ==> s == 0
        }),
{
}

// ---------- plugins ----------

/// The full name of a plugin's tool is the prefix, the server and the tool; where it is
/// short enough and of letters, digits, underscores and hyphens it is the tool's name as
/// it stands.
pub proof fn a_plain_name_is_kept(server: Seq<char>, tool: Seq<char>, raw: Seq<char>, hash: u64)
    ensures
        mcp::raw_id(server, tool) == "mcp__"@ + server + "__"@ + tool,
        raw.len() <= 64 && (forall|i: int|
            0 <= i < raw.len() ==> ('0' <= #[trigger] raw[i] <= '9' || 'a' <= raw[i] <= 'z' || 'A'
                <= raw[i] <= 'Z' || raw[i] == '_' || raw[i] == '-')) ==> mcp::id_for(raw, hash)
            == raw,
{
    if raw.len() <= 64 && (forall|i: int|
        0 <= i < raw.len() ==> ('0' <= #[trigger] raw[i] <= '9' || 'a' <= raw[i] <= 'z' || 'A'
            <= raw[i] <= 'Z' || raw[i] == '_' || raw[i] == '-')) {
        assert(mcp::id_safe(raw) =~= raw);
    }
}

/// In a name every character that engines do not take is an underscore, and the rest
/// stays; of a name of more than 64 characters the first 55 are kept, and eight digits
/// of the full name's hash are put behind them.
pub proof fn a_name_is_made_safe(raw: Seq<char>, hash: u64, i: int)
    requires
        0 <= i < raw.len(),
    ensures
        ({
            let c = raw[i];
            let plain = '0' <= c <= '9' || 'a' <= c <= 'z' || 'A' <= c <= 'Z' || c == '_' || c
                == '-';
            let safe = if plain {
                c
            } else {
                '_'
            };
            &&& raw.len() <= 64 ==> mcp::id_for(raw, hash).len() == raw.len() && mcp::id_for(
                raw,
                hash,
            )[i] == safe
            &&& raw.len() > 64 && i < 55 ==> mcp::id_for(raw, hash)[i] == safe
            &&& raw.len() > 64 ==> mcp::id_for(raw, hash).subrange(55, 64) == "_"@
                + ids::hex_digits((hash % 0x1_0000_0000) as nat, 8) && mcp::id_for(raw, hash).len()
                == 64
        }),
{
    reveal_strlit("_");
    ids::hex_digits_are_hex((hash % 0x1_0000_0000) as nat, 8);
    let id = mcp::id_for(raw, hash);
    if raw.len() > 64 {
        let tail = "_"@ + ids::hex_digits((hash % 0x1_0000_0000) as nat, 8);
        assert(id.subrange(55, 64) =~= tail);
    }
}

/// A result is kept up to a length and said to be cut where it is; that a failed call said
/// nothing is said; and that pictures are held back is said behind everything, uncut.
pub proof fn a_call_is_answered(result: McpCallResult, max: int, loc: Locale)
    requires
        max >= 1,
    ensures
        ({
            let said = if result.is_error && result.text@.len() == 0 {
                loc.text("tool.mcp.error_empty"@)
            } else {
                result.text@
            };
            let kept = if said.len() <= max {
                said
            } else {
                said.subrange(0, max) + "… "@ + loc.text("tool.mcp.result_truncated"@)
            };
            &&& mcp::call_text(result, max, true, loc) == kept
            &&& result.images@.len() == 0 ==> mcp::call_text(result, max, false, loc) == kept
            &&& result.images@.len() > 0 ==> mcp::call_text(result, max, false, loc) == kept
                + "\n"@ + loc.text1(
                "tool.mcp.images_off"@,
                "n"@,
                text::decimal(result.images@.len()),
            )
        }),
{
    let said = if result.is_error && result.text@.len() == 0 {
        loc.text("tool.mcp.error_empty"@)
    } else {
        result.text@
    };
    if said.len() > max {
        assert(said.take(max) =~= said.subrange(0, max));
    }
}

/// Bytes are written in their order, two digits each.
pub proof fn one_byte_more(bytes: Seq<u8>, n: int)
    requires
        0 <= n < bytes.len(),
    ensures
        mcp::hex_of_bytes(bytes, 0) == Seq::<char>::empty(),
        mcp::hex_of_bytes(bytes, n + 1) == mcp::hex_of_bytes(bytes, n) + ids::hex_digits(
            bytes[n] as nat,
            2,
        ),
{
}

} // verus!
