//! Sampling parameters: which there are, which an engine takes, and how a change is
//! laid over them.

use vstd::prelude::*;
use crate::json;
use crate::json::{Json, JsonView};
use crate::text;

verus! {

broadcast use text::views_push;

/// What a field's value is.
#[derive(Debug, Clone, Copy, PartialEq, Eq, Structural)]
pub enum FieldKind {
    Number,
    Integer,
    TextList,
    Flag,
    /// One of [`EFFORTS`].
    Effort,
    /// One of [`VERBOSITIES`].
    Verbosity,
}

/// How many fields there are.
pub const FIELD_COUNT: usize = 31;

/// How many of them a tool may set: all but the last one.
pub const SETTABLE_COUNT: usize = 30;

/// The fields. Those that a tool may set come first.
pub const FIELDS: [(&'static str, FieldKind); 31] = [
    ("temperature", FieldKind::Number),
    ("dynatemp_range", FieldKind::Number),
    ("dynatemp_exponent", FieldKind::Number),
    ("top_k", FieldKind::Integer),
    ("top_p", FieldKind::Number),
    ("min_p", FieldKind::Number),
    ("top_n_sigma", FieldKind::Number),
    ("typical_p", FieldKind::Number),
    ("adaptive_target", FieldKind::Number),
    ("adaptive_decay", FieldKind::Number),
    ("frequency_penalty", FieldKind::Number),
    ("presence_penalty", FieldKind::Number),
    ("repeat_penalty", FieldKind::Number),
    ("repeat_last_n", FieldKind::Integer),
    ("dry_multiplier", FieldKind::Number),
    ("dry_base", FieldKind::Number),
    ("dry_allowed_length", FieldKind::Integer),
    ("dry_penalty_last_n", FieldKind::Integer),
    ("dry_sequence_breakers", FieldKind::TextList),
    ("xtc_probability", FieldKind::Number),
    ("xtc_threshold", FieldKind::Number),
    ("mirostat", FieldKind::Integer),
    ("mirostat_tau", FieldKind::Number),
    ("mirostat_eta", FieldKind::Number),
    ("max_tokens", FieldKind::Integer),
    ("seed", FieldKind::Integer),
    ("samplers", FieldKind::TextList),
    ("thinking", FieldKind::Flag),
    ("reasoning_effort", FieldKind::Effort),
    ("verbosity", FieldKind::Verbosity),
    ("reasoning_budget", FieldKind::Integer),
];

/// How hard an engine may think.
pub const EFFORTS: [&'static str; 6] = ["none", "minimal", "low", "medium", "high", "xhigh"];

/// How much an engine may say.
pub const VERBOSITIES: [&'static str; 3] = ["low", "medium", "high"];

/// The place of `max_tokens`.
pub const MAX_TOKENS: usize = 24;

/// The place of `reasoning_budget`.
pub const REASONING_BUDGET: usize = 30;

/// A cloud provider.
#[derive(Debug, Clone, Copy, PartialEq, Eq, Structural)]
pub enum CloudProvider {
    OpenAi,
    Gemini,
    Claude,
}

/// The fields that the cloud providers take.
pub const CLOUD_FIELDS: [(CloudProvider, &'static str); 7] = [
    (CloudProvider::OpenAi, "max_tokens"),
    (CloudProvider::Gemini, "temperature"),
    (CloudProvider::Gemini, "top_k"),
    (CloudProvider::Gemini, "max_tokens"),
    (CloudProvider::Claude, "max_tokens"),
    (CloudProvider::Claude, "thinking"),
    (CloudProvider::Claude, "reasoning_effort"),
];

/// One of the rows from `i` on gives the provider this field.
pub open spec fn cloud_takes(p: CloudProvider, name: Seq<char>, i: int) -> bool
    decreases CLOUD_FIELDS@.len() - i,
{
    if i < 0 || i >= CLOUD_FIELDS@.len() {
        false
    } else {
        (CLOUD_FIELDS@[i].0 == p && CLOUD_FIELDS@[i].1@ == name) || cloud_takes(p, name, i + 1)
    }
}

/// One of the fields from `i` on that may be set has this name.
pub open spec fn is_settable(name: Seq<char>, i: int) -> bool
    decreases SETTABLE_COUNT - i,
{
    if i < 0 || i >= SETTABLE_COUNT {
        false
    } else {
        FIELDS@[i].0@ == name || is_settable(name, i + 1)
    }
}

/// The engine takes the field: a local one every field that may be set, a cloud
/// provider those of its own.
pub open spec fn is_supported(provider: Option<CloudProvider>, name: Seq<char>) -> bool {
    match provider {
        None => is_settable(name, 0),
        Some(p) => cloud_takes(p, name, 0),
    }
}

/// The engine takes the field.
pub fn supports(provider: Option<CloudProvider>, name: &str) -> (r: bool)
    ensures
        r == is_supported(provider, name@),
{
    match provider {
        None => settable(name),
        Some(p) => cloud_supports(p, name),
    }
}

fn settable(name: &str) -> (r: bool)
    ensures
        r == is_settable(name@, 0),
{
    let mut i: usize = 0;
    while i < SETTABLE_COUNT
        invariant
            i <= SETTABLE_COUNT,
            FIELDS@.len() == FIELD_COUNT,
            is_settable(name@, i as int) == is_settable(name@, 0),
        decreases SETTABLE_COUNT - i,
    {
        if text::same(FIELDS[i].0, name) {
            return true;
        }
        i = i + 1;
    }
    false
}

fn cloud_supports(p: CloudProvider, name: &str) -> (r: bool)
    ensures
        r == cloud_takes(p, name@, 0),
{
    let mut i: usize = 0;
    while i < CLOUD_FIELDS.len()
        invariant
            i <= CLOUD_FIELDS@.len(),
            CLOUD_FIELDS@.len() == 7,
            cloud_takes(p, name@, i as int) == cloud_takes(p, name@, 0),
        decreases CLOUD_FIELDS@.len() - i,
    {
        if CLOUD_FIELDS[i].0 == p && text::same(CLOUD_FIELDS[i].1, name) {
            return true;
        }
        i = i + 1;
    }
    false
}

/// The fields that the engine takes, among the first `n`.
pub open spec fn supported_names(provider: Option<CloudProvider>, n: int) -> Seq<Seq<char>>
    decreases n,
{
    if n <= 0 {
        Seq::empty()
    } else if is_supported(provider, FIELDS@[n - 1].0@) {
        supported_names(provider, n - 1).push(FIELDS@[n - 1].0@)
    } else {
        supported_names(provider, n - 1)
    }
}

/// The fields that the engine takes, in the order of the table.
pub fn supported_sampling_fields(provider: Option<CloudProvider>) -> (r: Vec<String>)
    ensures
        text::views(r@) == supported_names(provider, FIELD_COUNT as int),
{
    let mut r: Vec<String> = Vec::new();
    let mut i: usize = 0;
    assert(text::views(r@) =~= Seq::<Seq<char>>::empty());
    while i < FIELD_COUNT
        invariant
            i <= FIELD_COUNT,
            FIELDS@.len() == FIELD_COUNT,
            text::views(r@) == supported_names(provider, i as int),
        decreases FIELD_COUNT - i,
    {
        if supports(provider, FIELDS[i].0) {
            r.push(text::owned(FIELDS[i].0));
        }
        i = i + 1;
    }
    r
}

// ---------- values ----------

/// Sampling parameters: the values of the fields in the order of the table, each as
/// compact JSON. A field beyond the end has no value.
#[derive(Debug)]
pub struct SamplingConfig {
    values: Vec<Option<String>>,
}

/// The value at a place.
pub open spec fn value_at(values: Seq<Option<String>>, i: int) -> Option<Seq<char>> {
    if 0 <= i < values.len() {
        crate::json::opt_str(values[i])
    } else {
        None
    }
}

impl View for SamplingConfig {
    type V = Seq<Option<Seq<char>>>;

    closed spec fn view(&self) -> Seq<Option<Seq<char>>> {
        Seq::new(FIELD_COUNT as nat, |i: int| value_at(self.values@, i))
    }
}

/// A value once more.
pub fn copy_value(v: &Option<String>) -> (r: Option<String>)
    ensures
        crate::json::opt_str(r) == crate::json::opt_str(*v),
{
    match v {
        Some(s) => Some(s.clone()),
        None => None,
    }
}

/// No field has a value.
pub open spec fn unset() -> Seq<Option<Seq<char>>> {
    Seq::new(FIELD_COUNT as nat, |i: int| None)
}

impl SamplingConfig {
    /// There is no value but those of the fields.
    #[verifier::type_invariant]
    spec fn wf(self) -> bool {
        self.values@.len() <= FIELD_COUNT
    }

    /// No field has a value.
    pub fn new() -> (r: SamplingConfig)
        ensures
            r@ == unset(),
    {
        let r: SamplingConfig = SamplingConfig { values: Vec::new() };
        assert(r@ =~= unset());
        r
    }

    /// The value of a field.
    pub fn value(&self, i: usize) -> (r: Option<String>)
        requires
            i < FIELD_COUNT,
        ensures
            crate::json::opt_str(r) == self@[i as int],
    {
        if i < self.values.len() {
            copy_value(&self.values[i])
        } else {
            None
        }
    }

    /// The same with another value in one field.
    pub fn with(&self, at: usize, value: Option<String>) -> (r: SamplingConfig)
        requires
            at < FIELD_COUNT,
        ensures
            r@ == self@.update(at as int, crate::json::opt_str(value)),
    {
        let mut values: Vec<Option<String>> = Vec::new();
        let mut i: usize = 0;
        while i < FIELD_COUNT
            invariant
                i <= FIELD_COUNT,
                at < FIELD_COUNT,
                values@.len() == i,
                forall|j: int|
                    0 <= j < i ==> crate::json::opt_str(#[trigger] values@[j]) == (if j == at {
                        crate::json::opt_str(value)
                    } else {
                        self@[j]
                    }),
            decreases FIELD_COUNT - i,
        {
            if i == at {
                values.push(copy_value(&value));
            } else {
                values.push(self.value(i));
            }
            i = i + 1;
        }
        let r: SamplingConfig = SamplingConfig { values };
        assert(r@ =~= self@.update(at as int, crate::json::opt_str(value)));
        r
    }
}

/// What the members of an object say of a field: nothing where it is not there or
/// stands as `null`.
pub open spec fn said_of(members: Seq<(Seq<char>, Seq<char>)>, name: Seq<char>) -> Option<Seq<char>> {
    let i = crate::json::key_from(members, name, 0);
    if i < 0 || members[i].1 == "null"@ {
        None
    } else {
        Some(members[i].1)
    }
}

fn find_said(members: &Vec<(String, String)>, name: &str) -> (r: Option<String>)
    ensures
        crate::json::opt_str(r) == said_of(crate::json::pair_views(members@), name@),
{
    let ghost all = crate::json::pair_views(members@);
    let mut i: usize = 0;
    while i < members.len()
        invariant
            i <= members.len(),
            all == crate::json::pair_views(members@),
            crate::json::key_from(all, name@, i as int) == crate::json::key_from(all, name@, 0),
        decreases members.len() - i,
    {
        assert(all[i as int] == (members@[i as int].0@, members@[i as int].1@));
        if text::same(members[i].0.as_str(), name) {
            if text::same(members[i].1.as_str(), "null") {
                return None;
            }
            return Some(members[i].1.clone());
        }
        i = i + 1;
    }
    None
}

// ---------- values that fit their fields ----------

/// `s` is one of the words.
pub open spec fn is_among(words: Seq<&'static str>, s: Seq<char>) -> bool {
    exists|i: int| 0 <= i < words.len() && (#[trigger] words[i])@ == s
}

/// A number written without a point and without an exponent.
pub open spec fn is_whole(number: Seq<char>) -> bool {
    !number.contains('.') && !number.contains('e') && !number.contains('E')
}

/// Every one of the JSON texts is a string.
pub open spec fn all_strings(items: Seq<Seq<char>>) -> bool {
    forall|i: int| 0 <= i < items.len() ==> is_string(#[trigger] items[i])
}

pub open spec fn is_string(item: Seq<char>) -> bool {
    json::json_of(item) matches Some(JsonView::Str(_))
}

/// A value that a field of this kind takes. Any field takes `null`, which sets nothing.
pub open spec fn fits(kind: FieldKind, v: JsonView) -> bool {
    v is Null || match kind {
        FieldKind::Number => v is Num,
        FieldKind::Integer => v matches JsonView::Num(t, _) && is_whole(t),
        FieldKind::TextList => v matches JsonView::Arr(items) && all_strings(items),
        FieldKind::Flag => v is Bool,
        FieldKind::Effort => v matches JsonView::Str(s) && is_among(EFFORTS@, s),
        FieldKind::Verbosity => v matches JsonView::Str(s) && is_among(VERBOSITIES@, s),
    }
}

fn whole(number: &str) -> (r: bool)
    ensures
        r == is_whole(number@),
{
    let v: Vec<char> = text::chars_of(number);
    let mut i: usize = 0;
    while i < v.len()
        invariant
            i <= v.len(),
            v@ == number@,
            forall|j: int| 0 <= j < i ==> #[trigger] v@[j] != '.' && v@[j] != 'e' && v@[j] != 'E',
        decreases v.len() - i,
    {
        if v[i] == '.' || v[i] == 'e' || v[i] == 'E' {
            assert(number@.contains(v@[i as int]));
            return false;
        }
        i = i + 1;
    }
    true
}

fn strings_only(items: &Vec<String>) -> (r: bool)
    ensures
        r == all_strings(text::views(items@)),
{
    let ghost all = text::views(items@);
    let mut i: usize = 0;
    while i < items.len()
        invariant
            i <= items.len(),
            all == text::views(items@),
            forall|j: int| 0 <= j < i ==> is_string(#[trigger] all[j]),
        decreases items.len() - i,
    {
        assert(all[i as int] == items@[i as int]@);
        match Json::from_text(items[i].as_str()) {
            Some(Json::Str(_)) => {},
            _ => {
                assert(!is_string(all[i as int]));
                return false;
            },
        }
        i = i + 1;
    }
    true
}

fn effort(s: &str) -> (r: bool)
    ensures
        r == is_among(EFFORTS@, s@),
{
    let mut i: usize = 0;
    while i < EFFORTS.len()
        invariant
            i <= EFFORTS@.len(),
            forall|j: int| 0 <= j < i ==> (#[trigger] EFFORTS@[j])@ != s@,
        decreases EFFORTS@.len() - i,
    {
        if text::same(EFFORTS[i], s) {
            assert(EFFORTS@[i as int]@ == s@);
            return true;
        }
        i = i + 1;
    }
    false
}

fn verbosity(s: &str) -> (r: bool)
    ensures
        r == is_among(VERBOSITIES@, s@),
{
    let mut i: usize = 0;
    while i < VERBOSITIES.len()
        invariant
            i <= VERBOSITIES@.len(),
            forall|j: int| 0 <= j < i ==> (#[trigger] VERBOSITIES@[j])@ != s@,
        decreases VERBOSITIES@.len() - i,
    {
        if text::same(VERBOSITIES[i], s) {
            assert(VERBOSITIES@[i as int]@ == s@);
            return true;
        }
        i = i + 1;
    }
    false
}

/// Whether a field of this kind takes the value.
pub fn takes(kind: FieldKind, v: &Json) -> (r: bool)
    ensures
        r == fits(kind, v@),
{
    match (kind, v) {
        (_, Json::Null) => true,
        (FieldKind::Number, Json::Num(_)) => true,
        (FieldKind::Integer, Json::Num(n)) => whole(n.text.as_str()),
        (FieldKind::TextList, Json::Arr(items)) => strings_only(items),
        (FieldKind::Flag, Json::Bool(_)) => true,
        (FieldKind::Effort, Json::Str(s)) => effort(s.as_str()),
        (FieldKind::Verbosity, Json::Str(s)) => verbosity(s.as_str()),
        _ => false,
    }
}

/// The place of a field, searched from `i` on; -1 where there is no such field.
pub open spec fn field_from(name: Seq<char>, i: int) -> int
    decreases FIELDS@.len() - i,
{
    if i < 0 || i >= FIELDS@.len() {
        -1
    } else if (FIELDS@[i].0)@ == name {
        i
    } else {
        field_from(name, i + 1)
    }
}

fn find_field(name: &str) -> (r: Option<usize>)
    ensures
        match r {
            Some(i) => i < FIELDS@.len() && field_from(name@, 0) == i,
            None => field_from(name@, 0) == -1,
        },
{
    let mut i: usize = 0;
    while i < FIELDS.len()
        invariant
            i <= FIELDS@.len(),
            field_from(name@, i as int) == field_from(name@, 0),
        decreases FIELDS@.len() - i,
    {
        if text::same(FIELDS[i].0, name) {
            return Some(i);
        }
        i = i + 1;
    }
    None
}

/// The member of an object sets a field to a value that it takes, or is no field.
pub open spec fn member_fits(member: (Seq<char>, Seq<char>)) -> bool {
    let at = field_from(member.0, 0);
    at >= 0 ==> match json::json_of(member.1) {
        Some(v) => fits(FIELDS@[at].1, v),
        None => false,
    }
}

/// The first of the members, from `i` on, that does not fit; -1 where all do.
pub open spec fn misfit_from(members: Seq<(Seq<char>, Seq<char>)>, i: int) -> int
    decreases members.len() - i,
{
    if i < 0 || i >= members.len() {
        -1
    } else if !member_fits(members[i]) {
        i
    } else {
        misfit_from(members, i + 1)
    }
}

/// The first of the members that does not fit its field.
pub fn find_misfit(members: &Vec<(String, String)>) -> (r: Option<usize>)
    ensures
        match r {
            Some(i) => i < members@.len() && misfit_from(json::pair_views(members@), 0) == i,
            None => misfit_from(json::pair_views(members@), 0) == -1,
        },
{
    let ghost all = json::pair_views(members@);
    let mut i: usize = 0;
    while i < members.len()
        invariant
            i <= members.len(),
            all == json::pair_views(members@),
            misfit_from(all, i as int) == misfit_from(all, 0),
        decreases members.len() - i,
    {
        assert(all[i as int] == (members@[i as int].0@, members@[i as int].1@));
        let good: bool = match find_field(members[i].0.as_str()) {
            Some(at) => match Json::from_text(members[i].1.as_str()) {
                Some(v) => takes(FIELDS[at].1, &v),
                None => false,
            },
            None => true,
        };
        assert(good == member_fits(all[i as int]));
        if !good {
            return Some(i);
        }
        i = i + 1;
    }
    None
}

/// What the members of an object set.
pub open spec fn members_said(members: Seq<(Seq<char>, Seq<char>)>) -> Seq<Option<Seq<char>>> {
    Seq::new(FIELD_COUNT as nat, |i: int| said_of(members, (FIELDS@[i].0)@))
}

/// The parameters that the members of an object set, each member a field and its value
/// as compact JSON.
pub fn from_members(members: &Vec<(String, String)>) -> (r: SamplingConfig)
    ensures
        r@ == members_said(json::pair_views(members@)),
{
    let ghost all = crate::json::pair_views(members@);
    let mut values: Vec<Option<String>> = Vec::new();
    let mut i: usize = 0;
    while i < FIELD_COUNT
        invariant
            i <= FIELD_COUNT,
            values@.len() == i,
            all == crate::json::pair_views(members@),
            forall|j: int|
                0 <= j < i ==> crate::json::opt_str(#[trigger] values@[j]) == said_of(
                    all,
                    (FIELDS@[j].0)@,
                ),
        decreases FIELD_COUNT - i,
    {
        values.push(find_said(members, FIELDS[i].0));
        i = i + 1;
    }
    let r: SamplingConfig = SamplingConfig { values };
    assert(r@ =~= members_said(all));
    r
}

/// A change laid over parameters: what it sets wins, and the rest stays.
pub open spec fn merged(
    base: Seq<Option<Seq<char>>>,
    patch: Seq<Option<Seq<char>>>,
) -> Seq<Option<Seq<char>>> {
    Seq::new(
        FIELD_COUNT as nat,
        |i: int|
            if patch[i] is Some {
                patch[i]
            } else {
                base[i]
            },
    )
}

/// A change laid over parameters.
pub fn merge_sampling(base: &SamplingConfig, patch: &SamplingConfig) -> (r: SamplingConfig)
    ensures
        r@ == merged(base@, patch@),
{
    let mut values: Vec<Option<String>> = Vec::new();
    let mut i: usize = 0;
    while i < FIELD_COUNT
        invariant
            i <= FIELD_COUNT,
            values@.len() == i,
            forall|j: int|
                0 <= j < i ==> crate::json::opt_str(#[trigger] values@[j]) == merged(
                    base@,
                    patch@,
                )[j],
        decreases FIELD_COUNT - i,
    {
        let new: Option<String> = patch.value(i);
        match new {
            Some(s) => {
                values.push(Some(s));
            },
            None => {
                values.push(base.value(i));
            },
        }
        i = i + 1;
    }
    let r: SamplingConfig = SamplingConfig { values };
    assert(r@ =~= merged(base@, patch@));
    r
}

/// Laying a change over parameters a second time changes nothing; a change that sets
/// nothing changes nothing; and of two changes one after the other the later wins.
pub proof fn merging_is_overriding(base: SamplingConfig, a: SamplingConfig, b: SamplingConfig)
    ensures
        merged(merged(base@, a@), a@) == merged(base@, a@),
        merged(base@, unset()) == base@,
        merged(merged(base@, a@), b@) == merged(base@, merged(a@, b@)),
{
    assert(merged(merged(base@, a@), a@) =~= merged(base@, a@));
    assert(merged(base@, unset()) =~= base@);
    assert(merged(merged(base@, a@), b@) =~= merged(base@, merged(a@, b@)));
}

// ---------- what is shown ----------

/// A field as a member of a JSON object.
pub open spec fn member(name: Seq<char>, value: Option<Seq<char>>) -> Seq<char> {
    "\""@ + name + "\":"@ + (match value {
        Some(v) => v,
        None => "null"@,
    })
}

/// The fields that the engine takes as members, among the first `n`.
pub open spec fn members(
    cfg: Seq<Option<Seq<char>>>,
    provider: Option<CloudProvider>,
    n: int,
) -> Seq<Seq<char>>
    decreases n,
{
    if n <= 0 {
        Seq::empty()
    } else if is_supported(provider, FIELDS@[n - 1].0@) {
        members(cfg, provider, n - 1).push(member(FIELDS@[n - 1].0@, cfg[n - 1]))
    } else {
        members(cfg, provider, n - 1)
    }
}

/// The parameters that the engine takes as a JSON object, by name.
pub open spec fn supported_json(
    cfg: Seq<Option<Seq<char>>>,
    provider: Option<CloudProvider>,
) -> Seq<char> {
    "{"@ + text::joined(text::ordered(members(cfg, provider, FIELD_COUNT as int)), ","@) + "}"@
}

/// The parameters that the engine takes as a JSON object.
pub fn filter_to_supported(cfg: &SamplingConfig, provider: Option<CloudProvider>) -> (r: String)
    ensures
        r@ == supported_json(cfg@, provider),
{
    let mut rows: Vec<String> = Vec::new();
    let mut i: usize = 0;
    assert(text::views(rows@) =~= Seq::<Seq<char>>::empty());
    while i < FIELD_COUNT
        invariant
            i <= FIELD_COUNT,
            FIELDS@.len() == FIELD_COUNT,
            text::views(rows@) == members(cfg@, provider, i as int),
        decreases FIELD_COUNT - i,
    {
        if supports(provider, FIELDS[i].0) {
            let value: String = match cfg.value(i) {
                Some(v) => v,
                None => text::owned("null"),
            };
            rows.push(text::cat4("\"", FIELDS[i].0, "\":", value.as_str()));
        }
        i = i + 1;
    }
    let sorted: Vec<String> = text::sort(rows);
    let inner: String = text::join(&sorted, ",");
    text::cat3("{", inner.as_str(), "}")
}

/// A field that the engine does not take is not shown.
pub proof fn only_supported_fields_are_shown(
    cfg: Seq<Option<Seq<char>>>,
    provider: Option<CloudProvider>,
    n: int,
    row: Seq<char>,
)
    requires
        0 <= n <= FIELD_COUNT,
        members(cfg, provider, n).contains(row),
    ensures
        exists|i: int|
            0 <= i < n && is_supported(provider, (#[trigger] FIELDS@[i]).0@) && row == member(
                FIELDS@[i].0@,
                cfg[i],
            ),
    decreases n,
{
    let now = members(cfg, provider, n);
    let k = choose|k: int| 0 <= k < now.len() && now[k] == row;
    if n > 0 {
        let before = members(cfg, provider, n - 1);
        if k < before.len() {
            assert(before[k] == row);
            only_supported_fields_are_shown(cfg, provider, n - 1, row);
        } else {
            assert(FIELDS@[n - 1].0@ == FIELDS@[n - 1].0@);
        }
    }
}

} // verus!
