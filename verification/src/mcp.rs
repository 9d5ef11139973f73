//! The tools of plugin servers.
//!
//! What a server says of its tools is taken as it stands. Their names are brought into
//! the form that engines take, their results are cut to a length, and the hash of a
//! server's whole catalog shows whether anything in it has changed.

use sha2::Digest;
use std::collections::hash_map::DefaultHasher;
use std::hash::Hash;
use std::hash::Hasher;
use vstd::prelude::*;
use vstd::std_specs::hash::DefaultHasherAdditionalSpecFns;
use crate::i18n::Locale;
use crate::ids;
use crate::meta::{ToolGate, ToolGroup, ToolInfo};
use crate::order;
use crate::outcome::{ToolImage, ToolOutcome};
use crate::text;

verus! {

broadcast use text::views_push;

/// What a server says of a tool.
#[derive(Debug)]
pub struct McpToolInfo {
    pub name: String,
    pub description: String,
    /// The schema of the arguments, as compact JSON with its keys in order.
    pub input_schema: String,
}

/// What a [`McpToolInfo`] holds.
pub struct McpToolView {
    pub name: Seq<char>,
    pub description: Seq<char>,
    pub input_schema: Seq<char>,
}

impl View for McpToolInfo {
    type V = McpToolView;

    open spec fn view(&self) -> McpToolView {
        McpToolView {
            name: self.name@,
            description: self.description@,
            input_schema: self.input_schema@,
        }
    }
}

/// What the settings show of the plugin servers.
#[derive(Debug)]
pub struct McpSnapshot<S> {
    /// The tools of all servers that are ready.
    pub tools: Vec<ToolInfo>,
    pub servers: Vec<McpServerSnapshot<S>>,
}

/// What the settings show of one server.
#[derive(Debug)]
pub struct McpServerSnapshot<S> {
    pub id: String,
    pub status: S,
    /// How many of its tools are registered.
    pub tool_count: usize,
    /// The catalog is not the one that was confirmed; its tools wait.
    pub pending_catalog: bool,
}

// ---------- the hash of a catalog ----------

pub open spec fn tool_views(tools: Seq<McpToolInfo>) -> Seq<McpToolView> {
    tools.map_values(|t: McpToolInfo| t@)
}

pub open spec fn names_in(tools: Seq<McpToolView>) -> Seq<Seq<char>> {
    tools.map_values(|t: McpToolView| t.name)
}

/// The tools by name, those of one name as they came.
pub open spec fn by_name(tools: Seq<McpToolView>) -> Seq<McpToolView> {
    order::rising(names_in(tools), tools.len() as int).map_values(|i: int| tools[i])
}

/// A length in bytes of seven bits, the lowest first; every byte but the last has its
/// highest bit set.
pub open spec fn length_bytes(n: nat) -> Seq<u8>
    decreases n,
{
    if n < 128 {
        seq![n as u8]
    } else {
        seq![(128 + n % 128) as u8] + length_bytes(n / 128)
    }
}

/// What is hashed of a field: its length, and the field.
pub open spec fn field_bytes(s: Seq<char>) -> Seq<u8> {
    length_bytes(vstd::utf8::encode_utf8(s).len()) + vstd::utf8::encode_utf8(s)
}

/// What is hashed of a tool: its name, its description and its schema.
pub open spec fn tool_bytes(t: McpToolView) -> Seq<u8> {
    field_bytes(t.name) + (field_bytes(t.description) + field_bytes(t.input_schema))
}

/// What is hashed of the tools, one after the other.
pub open spec fn all_bytes(tools: Seq<McpToolView>) -> Seq<u8>
    decreases tools.len(),
{
    if tools.len() == 0 {
        Seq::empty()
    } else {
        tool_bytes(tools[0]) + all_bytes(tools.drop_first())
    }
}

/// The SHA-256 digest of some bytes.
pub uninterp spec fn sha256_of(bytes: Seq<u8>) -> Seq<u8>;

/// `sha2::Sha256::digest`: 32 bytes, which depend on the bytes alone.
#[verifier::external_body]
fn sha256(bytes: &Vec<u8>) -> (r: Vec<u8>)
    ensures
        r@ == sha256_of(bytes@),
        r@.len() == 32,
{
    sha2::Sha256::digest(bytes.as_slice()).to_vec()
}

/// Bytes in hexadecimal, two digits each, as far as the first `n`.
pub open spec fn hex_of_bytes(bytes: Seq<u8>, n: int) -> Seq<char>
    decreases n,
{
    if n <= 0 {
        Seq::empty()
    } else {
        hex_of_bytes(bytes, n - 1) + ids::hex_digits(bytes[n - 1] as nat, 2)
    }
}

/// Bytes in hexadecimal, two digits each.
pub fn show_hex(bytes: &Vec<u8>) -> (r: String)
    ensures
        r@ == hex_of_bytes(bytes@, bytes@.len() as int),
{
    let mut r: String = String::new();
    let mut i: usize = 0;
    while i < bytes.len()
        invariant
            i <= bytes.len(),
            r@ == hex_of_bytes(bytes@, i as int),
        decreases bytes.len() - i,
    {
        let two: String = ids::hex(bytes[i] as u64, 2);
        r.push_str(two.as_str());
        i = i + 1;
    }
    r
}

fn sort_by_name(tools: &Vec<McpToolInfo>) -> (r: Vec<usize>)
    ensures
        order::as_ints(r@) == order::rising(names_in(tool_views(tools@)), tools@.len() as int),
        forall|i: int| 0 <= i < r@.len() ==> #[trigger] r@[i] < tools.len(),
{
    let ghost all = names_in(tool_views(tools@));
    let mut names: Vec<String> = Vec::new();
    let mut i: usize = 0;
    while i < tools.len()
        invariant
            i <= tools.len(),
            all == names_in(tool_views(tools@)),
            text::views(names@) =~= all.take(i as int),
        decreases tools.len() - i,
    {
        names.push(tools[i].name.clone());
        i = i + 1;
    }
    assert(text::views(names@) =~= all);
    order::order_rising(&names)
}

fn push_length(out: &mut Vec<u8>, len: usize)
    ensures
        final(out)@ == old(out)@ + length_bytes(len as nat),
{
    let ghost before = out@;
    let mut n: usize = len;
    assert(out@ + length_bytes(n as nat) =~= before + length_bytes(len as nat));
    while n >= 128
        invariant
            out@ + length_bytes(n as nat) == before + length_bytes(len as nat),
        decreases n,
    {
        let ghost so_far = out@;
        out.push((128 + n % 128) as u8);
        assert(out@ + length_bytes((n / 128) as nat) =~= so_far + length_bytes(n as nat));
        n = n / 128;
    }
    let ghost so_far = out@;
    out.push(n as u8);
    assert(out@ =~= so_far + length_bytes(n as nat));
}

fn push_field(out: &mut Vec<u8>, s: &str)
    ensures
        final(out)@ == old(out)@ + field_bytes(s@),
{
    let ghost before = out@;
    let bytes: &[u8] = s.as_bytes();
    push_length(out, bytes.len());
    out.extend_from_slice(bytes);
    assert(out@ =~= before + field_bytes(s@));
}

/// What is hashed of a catalog.
pub fn catalog_bytes(tools: &Vec<McpToolInfo>) -> (r: Vec<u8>)
    ensures
        r@ == all_bytes(by_name(tool_views(tools@))),
{
    let at: Vec<usize> = sort_by_name(tools);
    let ghost views = tool_views(tools@);
    let ghost sorted = by_name(views);
    let mut out: Vec<u8> = Vec::new();
    let mut i: usize = 0;
    assert(sorted.skip(0) =~= sorted);
    assert(out@ + all_bytes(sorted.skip(0)) =~= all_bytes(sorted));
    while i < at.len()
        invariant
            i <= at.len(),
            at@.len() == sorted.len(),
            views == tool_views(tools@),
            sorted == by_name(views),
            order::as_ints(at@) == order::rising(names_in(views), tools@.len() as int),
            forall|j: int| 0 <= j < at@.len() ==> #[trigger] at@[j] < tools.len(),
            out@ + all_bytes(sorted.skip(i as int)) == all_bytes(sorted),
        decreases at.len() - i,
    {
        let t: &McpToolInfo = &tools[at[i]];
        let ghost before = out@;
        let ghost rest = sorted.skip(i as int);
        assert(order::as_ints(at@)[i as int] == at@[i as int] as int);
        assert(rest[0] == t@);
        assert(rest.drop_first() =~= sorted.skip(i + 1));
        push_field(&mut out, t.name.as_str());
        push_field(&mut out, t.description.as_str());
        push_field(&mut out, t.input_schema.as_str());
        assert(out@ =~= before + tool_bytes(t@));
        assert(before + (tool_bytes(t@) + all_bytes(sorted.skip(i + 1))) =~= out@ + all_bytes(
            sorted.skip(i + 1),
        ));
        i = i + 1;
    }
    assert(sorted.skip(i as int) =~= Seq::<McpToolView>::empty());
    assert(out@ + all_bytes(sorted.skip(i as int)) =~= out@);
    out
}

/// The hash of a server's catalog: the SHA-256 digest of its tools by name, in
/// hexadecimal.
pub fn catalog_hash(tools: &Vec<McpToolInfo>) -> (r: String)
    ensures
        ({
            let digest = sha256_of(all_bytes(by_name(tool_views(tools@))));
            r@ == hex_of_bytes(digest, digest.len() as int)
        }),
        r@.len() == 64,
{
    let bytes: Vec<u8> = catalog_bytes(tools);
    let digest: Vec<u8> = sha256(&bytes);
    proof {
        hex_has_two_digits(digest@, digest@.len() as int);
    }
    show_hex(&digest)
}

proof fn hex_has_two_digits(bytes: Seq<u8>, n: int)
    requires
        0 <= n <= bytes.len(),
    ensures
        hex_of_bytes(bytes, n).len() == 2 * n,
    decreases n,
{
    if n > 0 {
        hex_has_two_digits(bytes, n - 1);
        ids::hex_digits_are_hex(bytes[n - 1] as nat, 2);
    }
}

// ---------- what the hash tells apart ----------

/// No two of the tools have one name.
pub open spec fn names_differ(tools: Seq<McpToolView>) -> bool {
    forall|i: int, j: int|
        0 <= i < j < tools.len() ==> (#[trigger] tools[i]).name != (#[trigger] tools[j]).name
}

/// The names rise, and no two are the same.
pub open spec fn names_climb(tools: Seq<McpToolView>) -> bool {
    forall|i: int, j: int|
        0 <= i < j < tools.len() ==> (#[trigger] tools[i]).name != (#[trigger] tools[j]).name
            && text::not_after(tools[i].name, tools[j].name)
}

proof fn sorted_names_climb(tools: Seq<McpToolView>)
    requires
        names_differ(tools),
    ensures
        names_climb(by_name(tools)),
        forall|t: McpToolView| by_name(tools).contains(t) <==> tools.contains(t),
{
    let n = tools.len() as int;
    let idx = order::rising(names_in(tools), n);
    order::rising_is_an_order(names_in(tools), n);
    let sorted = by_name(tools);
    assert forall|i: int, j: int| 0 <= i < j < sorted.len() implies (#[trigger] sorted[i]).name != (
    #[trigger] sorted[j]).name && text::not_after(sorted[i].name, sorted[j].name) by {
        assert(idx[i] != idx[j]);
        assert(0 <= idx[i] < n && 0 <= idx[j] < n);
        assert(text::not_after(names_in(tools)[idx[i]], names_in(tools)[idx[j]]));
        if idx[i] < idx[j] {
            assert(tools[idx[i]].name != tools[idx[j]].name);
        } else {
            assert(tools[idx[j]].name != tools[idx[i]].name);
        }
    }
    assert forall|t: McpToolView| sorted.contains(t) <==> tools.contains(t) by {
        if tools.contains(t) {
            let k = choose|k: int| 0 <= k < n && tools[k] == t;
            assert(idx.contains(k));
            let i = choose|i: int| 0 <= i < idx.len() && idx[i] == k;
            assert(sorted[i] == t);
        }
        if sorted.contains(t) {
            let i = choose|i: int| 0 <= i < sorted.len() && sorted[i] == t;
            assert(0 <= idx[i] < n);
            assert(tools[idx[i]] == t);
        }
    }
}

proof fn same_order(a: Seq<McpToolView>, b: Seq<McpToolView>)
    requires
        names_climb(a),
        names_climb(b),
        forall|t: McpToolView| a.contains(t) <==> b.contains(t),
    ensures
        a == b,
    decreases a.len(),
{
    if a.len() == 0 {
        if b.len() > 0 {
            assert(b.contains(b[0]));
            assert(a.contains(b[0]));
        }
        assert(a =~= b);
    } else {
        let x = a.last();
        assert(a[a.len() - 1] == x);
        assert(a.contains(x));
        assert(b.contains(x));
        let y = b.last();
        assert(b[b.len() - 1] == y);
        assert(b.contains(y));
        assert(a.contains(y));
        let i = choose|i: int| 0 <= i < b.len() && b[i] == x;
        let j = choose|j: int| 0 <= j < a.len() && a[j] == y;
        if j < a.len() - 1 {
            assert(text::not_after(y.name, x.name) && y.name != x.name);
            if i < b.len() - 1 {
                assert(text::not_after(x.name, y.name));
                text::not_after_both_ways(x.name, y.name);
            }
        }
        assert(x == y);
        let c = a.drop_last();
        let d = b.drop_last();
        assert forall|t: McpToolView| c.contains(t) <==> d.contains(t) by {
            if c.contains(t) {
                let k = choose|k: int| 0 <= k < c.len() && c[k] == t;
                assert(a[k] == t);
                assert(a.contains(t));
                assert(b.contains(t));
                let m = choose|m: int| 0 <= m < b.len() && b[m] == t;
                assert(a[k].name != a[a.len() - 1].name);
                assert(d[m] == t);
            }
            if d.contains(t) {
                let k = choose|k: int| 0 <= k < d.len() && d[k] == t;
                assert(b[k] == t);
                assert(b.contains(t));
                assert(a.contains(t));
                let m = choose|m: int| 0 <= m < a.len() && a[m] == t;
                assert(b[k].name != b[b.len() - 1].name);
                assert(c[m] == t);
            }
        }
        assert(names_climb(c)) by {
            assert forall|i: int, j: int| 0 <= i < j < c.len() implies (#[trigger] c[i]).name != (
            #[trigger] c[j]).name && text::not_after(c[i].name, c[j].name) by {
                assert(c[i] == a[i] && c[j] == a[j]);
            }
        }
        assert(names_climb(d)) by {
            assert forall|i: int, j: int| 0 <= i < j < d.len() implies (#[trigger] d[i]).name != (
            #[trigger] d[j]).name && text::not_after(d[i].name, d[j].name) by {
                assert(d[i] == b[i] && d[j] == b[j]);
            }
        }
        same_order(c, d);
        assert(a =~= c.push(x));
        assert(b =~= d.push(y));
    }
}

/// The order in which a server lists its tools does not matter to the hash: what is
/// hashed is the same.
pub proof fn the_order_of_tools_does_not_matter(a: Seq<McpToolView>, b: Seq<McpToolView>)
    requires
        names_differ(a),
        names_differ(b),
        forall|t: McpToolView| a.contains(t) <==> b.contains(t),
    ensures
        all_bytes(by_name(a)) == all_bytes(by_name(b)),
{
    sorted_names_climb(a);
    sorted_names_climb(b);
    assert forall|t: McpToolView| by_name(a).contains(t) <==> by_name(b).contains(t) by {
        assert(a.contains(t) <==> b.contains(t));
    }
    same_order(by_name(a), by_name(b));
}

proof fn length_is_told(n: nat, x: Seq<u8>, m: nat, y: Seq<u8>)
    requires
        length_bytes(n) + x == length_bytes(m) + y,
    ensures
        n == m,
        x == y,
    decreases n,
{
    let s = length_bytes(n) + x;
    let r = length_bytes(m) + y;
    assert(s[0] == length_bytes(n)[0]);
    assert(r[0] == length_bytes(m)[0]);
    if n < 128 || m < 128 {
        assert(n == m);
        assert(x =~= s.skip(1));
        assert(y =~= r.skip(1));
    } else {
        assert(n % 128 == m % 128);
        assert(length_bytes(n / 128) + x =~= s.skip(1));
        assert(length_bytes(m / 128) + y =~= r.skip(1));
        length_is_told(n / 128, x, m / 128, y);
    }
}

proof fn field_is_told(a: Seq<char>, x: Seq<u8>, b: Seq<char>, y: Seq<u8>)
    requires
        field_bytes(a) + x == field_bytes(b) + y,
    ensures
        a == b,
        x == y,
{
    let p = vstd::utf8::encode_utf8(a);
    let q = vstd::utf8::encode_utf8(b);
    assert(field_bytes(a) + x =~= length_bytes(p.len()) + (p + x));
    assert(field_bytes(b) + y =~= length_bytes(q.len()) + (q + y));
    length_is_told(p.len(), p + x, q.len(), q + y);
    assert(p =~= (p + x).take(p.len() as int));
    assert(q =~= (q + y).take(p.len() as int));
    assert(x =~= (p + x).skip(p.len() as int));
    assert(y =~= (q + y).skip(p.len() as int));
    same_text(a, b);
}

proof fn same_text(a: Seq<char>, b: Seq<char>)
    requires
        vstd::utf8::encode_utf8(a) == vstd::utf8::encode_utf8(b),
    ensures
        a == b,
{
    vstd::utf8::encode_utf8_decode_utf8(a);
    vstd::utf8::encode_utf8_decode_utf8(b);
}

/// Any change to a catalog changes what is hashed: catalogs in order that give the same
/// bytes are the same.
pub proof fn every_change_is_hashed(a: Seq<McpToolView>, b: Seq<McpToolView>)
    requires
        all_bytes(a) == all_bytes(b),
    ensures
        a == b,
    decreases a.len(),
{
    if a.len() == 0 || b.len() == 0 {
        if a.len() > 0 {
            assert(all_bytes(a).len() > 0) by {
                assert(length_bytes(vstd::utf8::encode_utf8(a[0].name).len()).len() > 0);
            }
        }
        if b.len() > 0 {
            assert(all_bytes(b).len() > 0) by {
                assert(length_bytes(vstd::utf8::encode_utf8(b[0].name).len()).len() > 0);
            }
        }
        assert(a =~= b);
    } else {
        let s = a[0];
        let t = b[0];
        let x = all_bytes(a.drop_first());
        let y = all_bytes(b.drop_first());
        let p = field_bytes(s.input_schema) + x;
        let q = field_bytes(t.input_schema) + y;
        assert(all_bytes(a) =~= field_bytes(s.name) + (field_bytes(s.description) + p));
        assert(all_bytes(b) =~= field_bytes(t.name) + (field_bytes(t.description) + q));
        let u = field_bytes(s.description) + p;
        let v = field_bytes(t.description) + q;
        field_is_told(s.name, u, t.name, v);
        field_is_told(s.description, p, t.description, q);
        field_is_told(s.input_schema, x, t.input_schema, y);
        every_change_is_hashed(a.drop_first(), b.drop_first());
        assert(a =~= seq![s] + a.drop_first());
        assert(b =~= seq![t] + b.drop_first());
    }
}

// ---------- names ----------

/// What the name of every plugin tool begins with.
pub const MCP_TOOL_PREFIX: &'static str = "mcp__";

/// How long a tool's name may be.
pub const MAX_TOOL_ID: usize = 64;

/// How much of a longer name is kept.
pub const KEPT_OF_ID: usize = 55;

/// A character that may stand in a tool's name.
pub open spec fn is_id_char(c: char) -> bool {
    '0' <= c <= '9' || 'a' <= c <= 'z' || 'A' <= c <= 'Z' || c == '_' || c == '-'
}

/// The name with every other character made an underscore.
pub open spec fn id_safe(s: Seq<char>) -> Seq<char> {
    s.map_values(
        |c: char|
            if is_id_char(c) {
                c
            } else {
                '_'
            },
    )
}

/// The full name of a server's tool.
pub open spec fn raw_id(server: Seq<char>, tool: Seq<char>) -> Seq<char> {
    MCP_TOOL_PREFIX@ + server + "__"@ + tool
}

/// The name of a server's tool, where its full name has this hash.
pub open spec fn id_for(raw: Seq<char>, hash: u64) -> Seq<char> {
    let safe = id_safe(raw);
    if safe.len() <= MAX_TOOL_ID {
        safe
    } else {
        safe.take(KEPT_OF_ID as int) + "_"@ + ids::hex_digits((hash % 0x1_0000_0000) as nat, 8)
    }
}

/// What a text writes into a hasher, one write after the other.
pub uninterp spec fn str_writes(s: Seq<char>) -> Seq<Seq<u8>>;

/// `Hash` for `str`: what it writes into the hasher depends on the text alone. (Which
/// bytes these are is not said, and the hasher's algorithm may change with a release
/// of std.)
#[verifier::external_body]
fn feed(s: &str, hasher: &mut DefaultHasher)
    ensures
        final(hasher)@ == old(hasher)@ + str_writes(s@),
{
    s.hash(hasher);
}

/// The hash of a text by a new hasher of std.
pub open spec fn default_hash(s: Seq<char>) -> u64 {
    DefaultHasher::spec_finish(str_writes(s))
}

fn hash_name(s: &str) -> (r: u64)
    ensures
        r == default_hash(s@),
{
    let mut hasher: DefaultHasher = DefaultHasher::new();
    feed(s, &mut hasher);
    assert(hasher@ =~= str_writes(s@));
    hasher.finish()
}

fn make_safe(s: &str) -> (r: String)
    ensures
        r@ == id_safe(s@),
{
    let v: Vec<char> = text::chars_of(s);
    let mut r: String = String::new();
    let mut i: usize = 0;
    assert(r@ =~= id_safe(s@).take(0));
    while i < v.len()
        invariant
            i <= v.len(),
            v@ == s@,
            r@ =~= id_safe(s@).take(i as int),
        decreases v.len() - i,
    {
        let c: char = v[i];
        if ('0' <= c && c <= '9') || ('a' <= c && c <= 'z') || ('A' <= c && c <= 'Z') || c == '_'
            || c == '-' {
            r.push(c);
        } else {
            r.push('_');
        }
        i = i + 1;
    }
    assert(id_safe(s@).take(i as int) =~= id_safe(s@));
    r
}

/// The name of a server's tool, by the hash of its full name.
pub fn tool_id_with(raw: &str, hash: u64) -> (r: String)
    ensures
        r@ == id_for(raw@, hash),
{
    let safe: String = make_safe(raw);
    let n: usize = text::length(safe.as_str());
    if n <= MAX_TOOL_ID {
        return safe;
    }
    let kept: String = text::head(safe.as_str(), KEPT_OF_ID);
    let tail: String = ids::hex(hash % 0x1_0000_0000, 8);
    text::cat3(kept.as_str(), "_", tail.as_str())
}

/// The name of a server's tool: its full name with underscores for what engines do
/// not take. A long one is cut, and a part of the full name's hash put behind it, so
/// that long names do not fall together.
pub fn mcp_tool_id(server: &str, tool: &str) -> (r: String)
    ensures
        r@ == id_for(raw_id(server@, tool@), default_hash(raw_id(server@, tool@))),
{
    let raw: String = text::cat4(MCP_TOOL_PREFIX, server, "__", tool);
    let hash: u64 = hash_name(raw.as_str());
    tool_id_with(raw.as_str(), hash)
}

/// A tool's name is one that engines take: of a bounded length, and of letters,
/// digits, underscores and hyphens.
pub proof fn a_tool_id_is_accepted(raw: Seq<char>, hash: u64)
    ensures
        id_for(raw, hash).len() <= MAX_TOOL_ID,
        forall|i: int| 0 <= i < id_for(raw, hash).len() ==> is_id_char(#[trigger] id_for(raw, hash)[i]),
{
    reveal_strlit("_");
    let low = (hash % 0x1_0000_0000) as nat;
    ids::hex_digits_are_hex(low, 8);
    let id = id_for(raw, hash);
    let safe = id_safe(raw);
    assert forall|i: int| 0 <= i < id.len() implies is_id_char(#[trigger] id[i]) by {
        if safe.len() <= MAX_TOOL_ID || i < KEPT_OF_ID {
            assert(id[i] == safe[i]);
        } else if i == KEPT_OF_ID {
            assert(id[i] == '_');
        } else {
            assert(id[i] == ids::hex_digits(low, 8)[i - KEPT_OF_ID - 1]);
        }
    }
}

/// Every plugin tool's name begins with the prefix.
pub proof fn a_tool_id_has_the_prefix(server: Seq<char>, tool: Seq<char>, hash: u64)
    ensures
        text::stands_at(id_for(raw_id(server, tool), hash), MCP_TOOL_PREFIX@, 0),
{
    reveal_strlit("mcp__");
    let raw = raw_id(server, tool);
    let id = id_for(raw, hash);
    let p = MCP_TOOL_PREFIX@;
    assert forall|i: int| 0 <= i < p.len() implies id[i] == p[i] by {
        assert(raw[i] == p[i]);
        assert(id_safe(raw)[i] == p[i]);
    }
    assert(id.subrange(0, p.len() as int) =~= p);
}

/// Labels that outlive the tools they belong to; each text is kept once.
#[derive(Debug)]
pub struct LabelPool {
    pub labels: Vec<String>,
}

impl LabelPool {
    /// No label stands there twice.
    pub open spec fn wf(self) -> bool {
        text::views(self.labels@).no_duplicates()
    }

    pub fn new() -> (r: LabelPool)
        ensures
            r.wf(),
            r.labels@.len() == 0,
    {
        LabelPool { labels: Vec::new() }
    }

    /// The place of a label; it is put in where it is not there yet.
    pub fn intern(&mut self, s: &str) -> (r: usize)
        requires
            old(self).wf(),
        ensures
            final(self).wf(),
            r < final(self).labels@.len(),
            final(self).labels@[r as int]@ == s@,
            text::views(final(self).labels@) == (if text::views(old(self).labels@).contains(s@) {
                text::views(old(self).labels@)
            } else {
                text::views(old(self).labels@).push(s@)
            }),
    {
        let ghost all = text::views(self.labels@);
        let mut i: usize = 0;
        while i < self.labels.len()
            invariant
                i <= self.labels.len(),
                self.labels@ == old(self).labels@,
                all == text::views(self.labels@),
                all.no_duplicates(),
                forall|j: int| 0 <= j < i ==> #[trigger] all[j] != s@,
            decreases self.labels.len() - i,
        {
            assert(all[i as int] == self.labels@[i as int]@);
            if text::same(self.labels[i].as_str(), s) {
                assert(all.contains(s@));
                return i;
            }
            i = i + 1;
        }
        assert(!all.contains(s@));
        self.labels.push(text::owned(s));
        assert(text::views(self.labels@) == all.push(s@));
        i
    }
}

// ---------- a call ----------

/// A server's tool.
#[derive(Debug)]
pub struct McpTool {
    pub id: String,
    /// The tool's name on the server.
    pub remote_name: String,
    pub description: String,
    pub input_schema: String,
    pub label: String,
    pub timeout_secs: u64,
    /// How much of a result is kept, in characters: at least one.
    pub max_result_chars: usize,
}

/// What a call on a server came to.
#[derive(Debug)]
pub struct McpCallResult {
    pub is_error: bool,
    pub text: String,
    pub images: Vec<ToolImage>,
}

/// A text cut to a length, with a note where something was cut.
pub open spec fn clipped(s: Seq<char>, max: int, loc: Locale) -> Seq<char> {
    if s.len() <= max {
        s
    } else {
        text::head_of(s, max) + "… "@ + loc.text("tool.mcp.result_truncated"@)
    }
}

/// A text cut to a length, with a note where something was cut.
pub fn clip_result(s: &str, max: usize, loc: &Locale) -> (r: String)
    ensures
        r@ == clipped(s@, max as int, *loc),
{
    let n: usize = text::length(s);
    if n <= max {
        return text::owned(s);
    }
    let kept: String = text::head(s, max);
    text::cat3(kept.as_str(), "… ", loc.t("tool.mcp.result_truncated"))
}

/// The text of a call: what the server said, or that a call failed without a word.
/// What is held back is said behind it, and never cut off.
pub open spec fn call_text(
    result: McpCallResult,
    max: int,
    images_wanted: bool,
    loc: Locale,
) -> Seq<char> {
    let said = if result.is_error && result.text@.len() == 0 {
        loc.text("tool.mcp.error_empty"@)
    } else {
        result.text@
    };
    let held_back = !images_wanted && result.images@.len() > 0;
    if held_back {
        clipped(said, max, loc) + "\n"@ + loc.text1(
            "tool.mcp.images_off"@,
            "n"@,
            text::decimal(result.images@.len()),
        )
    } else {
        clipped(said, max, loc)
    }
}

impl McpTool {
    pub fn new(server_id: &str, info: &McpToolInfo, timeout_secs: u64, max_result_chars: usize) -> (r:
        McpTool)
        ensures
            ({
                let raw = raw_id(server_id@, info.name@);
                r.id@ == id_for(raw, default_hash(raw))
            }),
            r.remote_name@ == info.name@,
            r.description@ == info.description@,
            r.input_schema@ == info.input_schema@,
            r.label@ == info.name@,
            r.timeout_secs == timeout_secs,
            r.max_result_chars == (if max_result_chars == 0 {
                1
            } else {
                max_result_chars
            }),
    {
        McpTool {
            id: mcp_tool_id(server_id, info.name.as_str()),
            remote_name: info.name.clone(),
            description: info.description.clone(),
            input_schema: info.input_schema.clone(),
            label: info.name.clone(),
            timeout_secs,
            max_result_chars: if max_result_chars == 0 {
                1
            } else {
                max_result_chars
            },
        }
    }

    /// What the settings show of the tool: it hangs on the switch for plugins, and is
    /// off until it is switched on by itself.
    pub fn info(&self) -> (r: ToolInfo)
        ensures
            r.id@ == self.id@,
            r.group == ToolGroup::Plugins,
            r.label@ == self.label@,
            r.gate == Some(ToolGate::Mcp),
            !r.enabled_by_default,
            r.description is Some && (r.description->0)@ == self.description@,
    {
        ToolInfo {
            id: self.id.clone(),
            group: ToolGroup::Plugins,
            label: self.label.clone(),
            gate: Some(ToolGate::Mcp),
            enabled_by_default: false,
            description: Some(self.description.clone()),
        }
    }

    /// A plugin's tool is dangerous: what it does cannot be known, and what the server
    /// says of it is not relied on.
    pub fn danger(&self) -> (r: bool)
        ensures
            r,
    {
        true
    }

    /// The answer, by what the call came to. Pictures go along only where they are
    /// wanted.
    pub fn outcome(&self, result: McpCallResult, images_wanted: bool, loc: &Locale) -> (r:
        ToolOutcome)
        ensures
            r.result@ == call_text(result, self.max_result_chars as int, images_wanted, *loc),
            r.effects@.len() == 0,
            !r.wrote,
            r.prefill is None,
            r.images@ == (if images_wanted {
                result.images@
            } else {
                Seq::empty()
            }),
    {
        let said: String = if result.is_error && result.text.as_str().is_empty() {
            text::owned(loc.t("tool.mcp.error_empty"))
        } else {
            result.text.clone()
        };
        let mut out: String = clip_result(said.as_str(), self.max_result_chars, loc);
        if !images_wanted && result.images.len() > 0 {
            let n: String = text::dec_usize(result.images.len());
            let note: String = loc.tf1("tool.mcp.images_off", "n", n.as_str());
            out.push_str("\n");
            out.push_str(note.as_str());
        }
        if images_wanted {
            ToolOutcome::text(out).with_images(result.images)
        } else {
            ToolOutcome::text(out)
        }
    }
}

} // verus!
