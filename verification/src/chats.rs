//! `chat_search` and `chat_read`: the other conversations of the profile.
//!
//! What is in reach is settled once, by the snapshot of a turn: the profile's own
//! chats, without the current one and without hidden ones, and the transcripts inside
//! those chats and the current one. What is not in the snapshot does not exist for
//! either tool.

use vstd::prelude::*;
use crate::i18n::Locale;
use crate::ids;
use crate::json::Json;
use crate::order;
use crate::outcome::ToolOutcome;
use crate::search;
use crate::text;
use crate::times;
use crate::times::Moment;

verus! {

broadcast use text::views_push;

pub const CHAT_SEARCH_ID: &'static str = "chat_search";

pub const CHAT_READ_ID: &'static str = "chat_read";

/// How many hits a search gives unless it is told otherwise.
pub const DEFAULT_TOP_K: u64 = 5;

/// How many hits a search gives at most.
pub const MAX_TOP_K: u64 = 20;

/// How many candidates an unclear reference lists.
pub const AMBIGUOUS_CAP: usize = 6;

/// A conversation inside a chat.
#[derive(Debug)]
pub struct Run {
    pub id: u128,
    pub title: String,
    pub created_at: Moment,
    pub finished_at: Option<Moment>,
}

/// A chat, as far as it matters what is in reach.
#[derive(Debug)]
pub struct Chat {
    pub id: u128,
    pub profile_id: u128,
    pub title: String,
    pub modified_at: Moment,
    pub is_hidden: bool,
    pub runs: Vec<Run>,
}

/// The chat that holds a transcript.
#[derive(Debug)]
pub struct ParentRef {
    pub id: u128,
    pub title: String,
}

/// A conversation in reach: a chat, or a transcript inside one.
#[derive(Debug)]
pub struct ChatRef {
    pub id: u128,
    pub title: String,
    pub modified_at: Moment,
    pub parent: Option<ParentRef>,
}

/// What a [`ChatRef`] holds.
#[verifier::ext_equal]
pub struct ChatRefView {
    pub id: u128,
    pub title: Seq<char>,
    pub modified_at: Moment,
    pub parent: Option<(u128, Seq<char>)>,
}

impl View for ChatRef {
    type V = ChatRefView;

    open spec fn view(&self) -> ChatRefView {
        ChatRefView {
            id: self.id,
            title: self.title@,
            modified_at: self.modified_at,
            parent: match self.parent {
                Some(p) => Some((p.id, p.title@)),
                None => None,
            },
        }
    }
}

pub open spec fn ref_views(v: Seq<ChatRef>) -> Seq<ChatRefView> {
    v.map_values(|r: ChatRef| r@)
}

pub broadcast proof fn ref_views_push(v: Seq<ChatRef>, r: ChatRef)
    ensures
        #[trigger] ref_views(v.push(r)) == ref_views(v).push(r@),
{
    assert(ref_views(v.push(r)) =~= ref_views(v).push(r@));
}

// ---------- what is in reach ----------

/// The reference to a chat.
pub open spec fn chat_ref(c: Chat) -> ChatRefView {
    ChatRefView { id: c.id, title: c.title@, modified_at: c.modified_at, parent: None }
}

/// The reference to a transcript.
pub open spec fn run_ref(c: Chat, run: Run) -> ChatRefView {
    ChatRefView {
        id: run.id,
        title: run.title@,
        modified_at: match run.finished_at {
            Some(t) => t,
            None => run.created_at,
        },
        parent: Some((c.id, c.title@)),
    }
}

/// What one chat brings into reach: itself unless it is the current one, and its
/// transcripts.
pub open spec fn refs_of(c: Chat, profile_id: u128, current: u128) -> Seq<ChatRefView> {
    if c.profile_id != profile_id || c.is_hidden {
        Seq::empty()
    } else {
        let own = if c.id == current {
            Seq::empty()
        } else {
            seq![chat_ref(c)]
        };
        own + c.runs@.map_values(|run: Run| run_ref(c, run))
    }
}

/// What the chats bring into reach.
pub open spec fn snapshot(chats: Seq<Chat>, profile_id: u128, current: u128) -> Seq<ChatRefView>
    decreases chats.len(),
{
    if chats.len() == 0 {
        Seq::empty()
    } else {
        snapshot(chats.drop_last(), profile_id, current) + refs_of(
            chats.last(),
            profile_id,
            current,
        )
    }
}

fn add_refs(c: &Chat, profile_id: u128, current: u128, r: &mut Vec<ChatRef>)
    ensures
        ref_views(final(r)@) == ref_views(old(r)@) + refs_of(*c, profile_id, current),
{
    broadcast use ref_views_push;

    let ghost before = ref_views(r@);
    if c.profile_id != profile_id || c.is_hidden {
        assert(ref_views(r@) =~= before + refs_of(*c, profile_id, current));
        return;
    }
    let ghost own: Seq<ChatRefView> = if c.id == current {
        Seq::empty()
    } else {
        seq![chat_ref(*c)]
    };
    if c.id != current {
        r.push(
            ChatRef {
                id: c.id,
                title: c.title.clone(),
                modified_at: c.modified_at,
                parent: None,
            },
        );
    }
    let ghost children = c.runs@.map_values(|run: Run| run_ref(*c, run));
    let mut i: usize = 0;
    assert(ref_views(r@) =~= before + own + children.take(0));
    while i < c.runs.len()
        invariant
            i <= c.runs.len(),
            children == c.runs@.map_values(|run: Run| run_ref(*c, run)),
            ref_views(r@) =~= before + own + children.take(i as int),
        decreases c.runs.len() - i,
    {
        broadcast use ref_views_push;

        let run: &Run = &c.runs[i];
        let at: Moment = match run.finished_at {
            Some(t) => t,
            None => run.created_at,
        };
        r.push(
            ChatRef {
                id: run.id,
                title: run.title.clone(),
                modified_at: at,
                parent: Some(ParentRef { id: c.id, title: c.title.clone() }),
            },
        );
        assert(children[i as int] == run_ref(*c, *run));
        i = i + 1;
    }
    assert(children.take(i as int) =~= children);
    assert(ref_views(r@) =~= before + refs_of(*c, profile_id, current));
}

/// The snapshot of a turn: which conversations are in reach.
pub fn snapshot_other_chats(chats: &Vec<Chat>, profile_id: u128, current: u128) -> (r: Vec<ChatRef>)
    ensures
        ref_views(r@) == snapshot(chats@, profile_id, current),
{
    let mut r: Vec<ChatRef> = Vec::new();
    let mut i: usize = 0;
    assert(chats@.take(0) =~= Seq::<Chat>::empty());
    assert(ref_views(r@) =~= Seq::<ChatRefView>::empty());
    while i < chats.len()
        invariant
            i <= chats.len(),
            ref_views(r@) == snapshot(chats@.take(i as int), profile_id, current),
        decreases chats.len() - i,
    {
        assert(chats@.take(i + 1).drop_last() =~= chats@.take(i as int));
        add_refs(&chats[i], profile_id, current, &mut r);
        i = i + 1;
    }
    assert(chats@.take(i as int) =~= chats@);
    r
}

/// A conversation in reach is a visible chat of the profile other than the current
/// one, or a transcript inside a visible chat of the profile.
pub proof fn only_the_profile_is_in_reach(
    chats: Seq<Chat>,
    profile_id: u128,
    current: u128,
    r: ChatRefView,
)
    requires
        snapshot(chats, profile_id, current).contains(r),
    ensures
        exists|i: int|
            {
                &&& 0 <= i < chats.len()
                &&& (#[trigger] chats[i]).profile_id == profile_id
                &&& !chats[i].is_hidden
                &&& match r.parent {
                    None => r.id == chats[i].id && r.id != current,
                    Some(p) => p.0 == chats[i].id && exists|k: int|
                        0 <= k < chats[i].runs@.len() && (#[trigger] chats[i].runs@[k]).id == r.id,
                }
            },
    decreases chats.len(),
{
    let now = snapshot(chats, profile_id, current);
    let k = choose|k: int| 0 <= k < now.len() && now[k] == r;
    if chats.len() > 0 {
        let rest = chats.drop_last();
        let before = snapshot(rest, profile_id, current);
        let c = chats.last();
        let own = refs_of(c, profile_id, current);
        if k < before.len() {
            assert(before[k] == r);
            only_the_profile_is_in_reach(rest, profile_id, current, r);
            let i = choose|i: int|
                {
                    &&& 0 <= i < rest.len()
                    &&& (#[trigger] rest[i]).profile_id == profile_id
                    &&& !rest[i].is_hidden
                    &&& match r.parent {
                        None => r.id == rest[i].id && r.id != current,
                        Some(p) => p.0 == rest[i].id && exists|k: int|
                            0 <= k < rest[i].runs@.len() && (#[trigger] rest[i].runs@[k]).id
                                == r.id,
                    }
                };
            assert(chats[i] == rest[i]);
        } else {
            let j = k - before.len();
            assert(own[j] == r);
            let first: int = if c.id == current {
                0
            } else {
                1
            };
            assert(chats[chats.len() - 1] == c);
            if j >= first {
                assert(r == run_ref(c, c.runs@[j - first]));
                assert(c.runs@[j - first].id == r.id);
            }
        }
    }
}

/// Where the messages of a conversation are taken from.
#[derive(Debug, Clone, Copy, PartialEq, Eq, Structural)]
pub enum TranscriptSource {
    /// The chat's own messages.
    Own,
    /// Those of a transcript inside the chat.
    Child,
}

/// The file holds the transcript.
pub open spec fn has_run(file: Chat, id: u128) -> bool {
    exists|i: int| 0 <= i < file.runs@.len() && (#[trigger] file.runs@[i]).id == id
}

/// The file whose messages a reference names.
pub fn transcript_file(r: &ChatRef) -> (id: u128)
    ensures
        id == match r@.parent {
            Some(p) => p.0,
            None => r.id,
        },
{
    match &r.parent {
        Some(p) => p.id,
        None => r.id,
    }
}

/// Where the messages of a conversation are taken from, by the chat that the file
/// holds now. A chat that has changed its profile, has been hidden or has become the
/// current one is not read on the strength of an older snapshot; nor is a transcript
/// that is gone.
pub fn load_transcript(file: &Option<Chat>, r: &ChatRef, profile_id: u128, current: u128) -> (s:
    Option<TranscriptSource>)
    ensures
        s == (if file is None || file->0.profile_id != profile_id || file->0.is_hidden {
            None
        } else if r.parent is None {
            if file->0.id == current {
                None
            } else {
                Some(TranscriptSource::Own)
            }
        } else if has_run(file->0, r.id) {
            Some(TranscriptSource::Child)
        } else {
            None
        }),
{
    match file {
        None => None,
        Some(c) => {
            if c.profile_id != profile_id || c.is_hidden {
                return None;
            }
            match &r.parent {
                None => if c.id == current {
                    None
                } else {
                    Some(TranscriptSource::Own)
                },
                Some(_) => if has_transcript(c, r.id) {
                    Some(TranscriptSource::Child)
                } else {
                    None
                },
            }
        },
    }
}

fn has_transcript(c: &Chat, id: u128) -> (r: bool)
    ensures
        r == has_run(*c, id),
{
    let mut i: usize = 0;
    while i < c.runs.len()
        invariant
            i <= c.runs.len(),
            forall|j: int| 0 <= j < i ==> (#[trigger] c.runs@[j]).id != id,
        decreases c.runs.len() - i,
    {
        if c.runs[i].id == id {
            assert(c.runs@[i as int].id == id);
            return true;
        }
        i = i + 1;
    }
    false
}

// ---------- names and addresses ----------

/// A conversation's name in an answer: a transcript is named with its chat.
pub open spec fn label_of(r: ChatRefView, loc: Locale) -> Seq<char> {
    match r.parent {
        Some(p) => loc.text2("tool.chat_search.child"@, "title"@, r.title, "parent"@, p.1),
        None => r.title,
    }
}

impl ChatRef {
    /// A conversation's name in an answer.
    pub fn label(&self, loc: &Locale) -> (r: String)
        ensures
            r@ == label_of(self@, *loc),
    {
        match &self.parent {
            Some(p) => loc.tf2(
                "tool.chat_search.child",
                "title",
                self.title.as_str(),
                "parent",
                p.title.as_str(),
            ),
            None => self.title.clone(),
        }
    }
}

/// How many digits of an identifier stand in an address.
pub const ADDRESS_DIGITS: usize = 8;

/// A conversation's address: the scheme, and the first digits of its identifier.
pub open spec fn address_of(id: u128) -> Seq<char> {
    "chat://"@ + text::head_of(ids::hex_digits(id as nat, 32), ADDRESS_DIGITS as int)
}

/// A conversation's address.
pub fn address(id: u128) -> (r: String)
    ensures
        r@ == address_of(id),
{
    let digits: String = ids::show_simple(id);
    text::cat2("chat://", text::head(digits.as_str(), ADDRESS_DIGITS).as_str())
}

/// A hexadecimal digit, in small letters.
pub open spec fn is_hex(c: char) -> bool {
    '0' <= c <= '9' || 'a' <= c <= 'f'
}

/// Hexadecimal digits only.
pub open spec fn is_hex_run(s: Seq<char>) -> bool {
    forall|i: int| 0 <= i < s.len() ==> is_hex(#[trigger] s[i])
}

/// The digits that a reference gives, in either case, with or without the scheme and
/// the hyphens of a whole identifier; nothing where it is no such reference.
pub open spec fn hex_of(needle: Seq<char>) -> Option<Seq<char>> {
    let small = text::ascii_lowered(needle);
    let bare = if text::stands_at(small, "chat://"@, 0) {
        small.skip("chat://"@.len() as int)
    } else {
        small
    };
    let digits = text::replaced(bare, "-"@, Seq::empty());
    if digits.len() > 0 && is_hex_run(digits) {
        Some(digits)
    } else {
        None
    }
}

/// The digits that a reference gives.
pub fn hex_needle(needle: &str) -> (r: Option<String>)
    ensures
        crate::json::opt_str(r) == hex_of(needle@),
{
    proof {
        reveal_strlit("-");
        reveal_strlit("");
        assert(""@ =~= Seq::<char>::empty());
    }
    let small: String = text::to_ascii_lower(needle);
    let bare: String = match text::strip_prefix(small.as_str(), "chat://") {
        Some(rest) => rest,
        None => small,
    };
    let digits: String = text::replace(bare.as_str(), "-", "");
    let v: Vec<char> = text::chars_of(digits.as_str());
    if v.len() == 0 || !all_hex(&v) {
        return None;
    }
    Some(digits)
}

fn all_hex(v: &Vec<char>) -> (r: bool)
    ensures
        r == is_hex_run(v@),
{
    let mut i: usize = 0;
    while i < v.len()
        invariant
            i <= v.len(),
            forall|j: int| 0 <= j < i ==> is_hex(#[trigger] v@[j]),
        decreases v.len() - i,
    {
        let c: char = v[i];
        if !(('0' <= c && c <= '9') || ('a' <= c && c <= 'f')) {
            assert(!is_hex(v@[i as int]));
            return false;
        }
        i = i + 1;
    }
    true
}

/// The date in a timestamp: what stands before the `T`.
pub open spec fn date_part(ts: Seq<char>) -> Seq<char> {
    let i = text::find_from(ts, seq!['T'], 0);
    if i < 0 {
        ts
    } else {
        ts.take(i)
    }
}

/// The date in a timestamp.
pub fn date_of(ts: &str) -> (r: String)
    ensures
        r@ == date_part(ts@),
{
    let v: Vec<char> = text::chars_of(ts);
    let mut t: Vec<char> = Vec::new();
    t.push('T');
    assert(t@ =~= seq!['T']);
    proof {
        text::find_is_first(ts@, seq!['T'], 0);
    }
    match text::find(&v, &t, 0) {
        Some(i) => {
            assert(v@.subrange(0, i as int) =~= ts@.take(i as int));
            text::slice(&v, 0, i)
        },
        None => text::owned(ts),
    }
}

/// What is answered where there is no other conversation at all.
pub fn no_other_chats(loc: &Locale) -> (r: ToolOutcome)
    ensures
        r.says(loc.text("tool.chats.none"@)),
{
    ToolOutcome::text(text::owned(loc.t("tool.chats.none")))
}

// ---------- which conversation is meant ----------

/// What a reference came to, by positions.
#[derive(Debug)]
pub enum Resolved {
    One(usize),
    Ambiguous(Vec<usize>),
    Nothing,
}

/// The three ways in which a reference can mean a conversation, tried in this order.
#[derive(Debug, Clone, Copy, PartialEq, Eq, Structural)]
pub enum Rung {
    /// Its digits begin the identifier.
    Address,
    /// It is the title, letter case apart.
    Title,
    /// It stands in the title, letter case apart.
    InTitle,
}

/// The reference means this conversation in this way.
pub open spec fn means(r: ChatRefView, needle: Seq<char>, rung: Rung) -> bool {
    match rung {
        Rung::Address => hex_of(needle) is Some && text::stands_at(
            ids::hex_digits(r.id as nat, 32),
            hex_of(needle)->0,
            0,
        ),
        Rung::Title => text::lowercase(text::trimmed(r.title)) == text::lowercase(needle),
        Rung::InTitle => text::occurs(text::lowercase(r.title), text::lowercase(needle)),
    }
}

proof fn hex_has_no_hyphen(s: Seq<char>)
    requires
        is_hex_run(s),
    ensures
        text::replaced(s, "-"@, Seq::empty()) == s,
    decreases s.len(),
{
    reveal_strlit("-");
    if s.len() > 0 {
        assert(is_hex(s[0]));
        assert(s.subrange(0, 1)[0] == s[0]);
        assert forall|i: int| 0 <= i < s.skip(1).len() implies is_hex(#[trigger] s.skip(1)[i]) by {
            assert(is_hex(s[i + 1]));
        }
        hex_has_no_hyphen(s.skip(1));
        assert(seq![s[0]] + s.skip(1) =~= s);
    }
}

/// The address that a conversation is shown under means that conversation when it is
/// handed back.
pub proof fn an_address_is_read_back(r: ChatRefView)
    ensures
        means(r, address_of(r.id), Rung::Address),
{
    let all = ids::hex_digits(r.id as nat, 32);
    let shown = text::head_of(all, ADDRESS_DIGITS as int);
    let address = address_of(r.id);
    let scheme = "chat://"@;
    ids::hex_digits_are_hex(r.id as nat, 32);
    reveal_strlit("chat://");
    assert forall|i: int| 0 <= i < shown.len() implies is_hex(#[trigger] shown[i]) by {
        assert(shown[i] == all[i]);
    }
    assert(text::ascii_lowered(address) =~= address) by {
        assert forall|i: int| 0 <= i < address.len() implies #[trigger] text::ascii_lower(
            address[i],
        ) == address[i] by {
            if i >= scheme.len() {
                assert(address[i] == shown[i - scheme.len()]);
                assert(is_hex(shown[i - scheme.len()]));
            }
        }
    }
    assert(address.subrange(0, scheme.len() as int) =~= scheme);
    assert(address.skip(scheme.len() as int) =~= shown);
    hex_has_no_hyphen(shown);
    assert(all.subrange(0, shown.len() as int) =~= shown);
}

/// The conversations that a reference means in this way, among the first `n`.
pub open spec fn meant(refs: Seq<ChatRefView>, needle: Seq<char>, rung: Rung, n: int) -> Seq<int>
    decreases n,
{
    if n <= 0 {
        Seq::empty()
    } else {
        let before = meant(refs, needle, rung, n - 1);
        if means(refs[n - 1], needle, rung) {
            before.push(n - 1)
        } else {
            before
        }
    }
}

/// The first way in which a reference means anything settles it; where it then means
/// several conversations, it is unclear.
pub open spec fn settled(refs: Seq<ChatRefView>, needle: Seq<char>) -> Seq<int> {
    let n = refs.len() as int;
    let by_address = meant(refs, needle, Rung::Address, n);
    let by_title = meant(refs, needle, Rung::Title, n);
    if needle.len() == 0 {
        Seq::empty()
    } else if by_address.len() > 0 {
        by_address
    } else if by_title.len() > 0 {
        by_title
    } else {
        meant(refs, needle, Rung::InTitle, n)
    }
}

fn find_meant(refs: &Vec<ChatRef>, needle: &str, hex: &Option<String>, rung: Rung) -> (r: Vec<usize>)
    requires
        crate::json::opt_str(*hex) == hex_of(needle@),
    ensures
        order::as_ints(r@) == meant(ref_views(refs@), needle@, rung, refs.len() as int),
        forall|i: int| 0 <= i < r@.len() ==> #[trigger] r@[i] < refs.len(),
{
    let ghost all = ref_views(refs@);
    let folded: String = text::to_lower(needle);
    let mut r: Vec<usize> = Vec::new();
    let mut i: usize = 0;
    assert(order::as_ints(r@) =~= Seq::<int>::empty());
    while i < refs.len()
        invariant
            i <= refs.len(),
            all == ref_views(refs@),
            folded@ == text::lowercase(needle@),
            crate::json::opt_str(*hex) == hex_of(needle@),
            order::as_ints(r@) =~= meant(all, needle@, rung, i as int),
            forall|j: int| 0 <= j < r@.len() ==> #[trigger] r@[j] < i,
        decreases refs.len() - i,
    {
        assert(all[i as int] == refs@[i as int]@);
        let hit: bool = match rung {
            Rung::Address => match hex {
                Some(h) => {
                    let digits: String = ids::show_simple(refs[i].id);
                    text::starts_with(digits.as_str(), h.as_str())
                },
                None => false,
            },
            Rung::Title => {
                let title: String = text::trim(refs[i].title.as_str());
                text::same(text::to_lower(title.as_str()).as_str(), folded.as_str())
            },
            Rung::InTitle => {
                let title: String = text::to_lower(refs[i].title.as_str());
                text::contains(title.as_str(), folded.as_str())
            },
        };
        if hit {
            let ghost before = order::as_ints(r@);
            r.push(i);
            assert(order::as_ints(r@) =~= before.push(i as int));
        }
        i = i + 1;
    }
    r
}

/// Which conversation a reference means. It goes by the address first, then by the
/// title, then by a part of it; several conversations at one of these leave it
/// unclear, rather than one of them being taken.
pub fn resolve(refs: &Vec<ChatRef>, reference: &str) -> (r: Resolved)
    ensures
        ({
            let found = settled(ref_views(refs@), text::trimmed(reference@));
            match r {
                Resolved::One(i) => found == seq![i as int] && i < refs.len(),
                Resolved::Ambiguous(v) => found.len() > 1 && order::as_ints(v@) == found && forall|
                    i: int,
                | 0 <= i < v@.len() ==> #[trigger] v@[i] < refs.len(),
                Resolved::Nothing => found.len() == 0,
            }
        }),
{
    let needle: String = text::trim(reference);
    if needle.as_str().is_empty() {
        return Resolved::Nothing;
    }
    let hex: Option<String> = hex_needle(needle.as_str());
    let by_address: Vec<usize> = find_meant(refs, needle.as_str(), &hex, Rung::Address);
    assert(order::as_ints(by_address@).len() == by_address@.len());
    if by_address.len() > 0 {
        return one_or_more(by_address);
    }
    let by_title: Vec<usize> = find_meant(refs, needle.as_str(), &hex, Rung::Title);
    assert(order::as_ints(by_title@).len() == by_title@.len());
    if by_title.len() > 0 {
        return one_or_more(by_title);
    }
    let in_title: Vec<usize> = find_meant(refs, needle.as_str(), &hex, Rung::InTitle);
    assert(order::as_ints(in_title@).len() == in_title@.len());
    one_or_more(in_title)
}

fn one_or_more(v: Vec<usize>) -> (r: Resolved)
    ensures
        match r {
            Resolved::One(i) => order::as_ints(v@) == seq![i as int] && v@.contains(i),
            Resolved::Ambiguous(w) => v@.len() > 1 && w@ == v@,
            Resolved::Nothing => v@.len() == 0,
        },
{
    if v.len() == 0 {
        Resolved::Nothing
    } else if v.len() == 1 {
        assert(order::as_ints(v@) =~= seq![v@[0] as int]);
        Resolved::One(v[0])
    } else {
        Resolved::Ambiguous(v)
    }
}

// ---------- chat_read ----------

/// `chat_read`.
pub struct ChatRead;

/// What a read comes to before anything is loaded.
#[derive(Debug)]
pub enum Choice {
    /// Read this one.
    Read(usize),
    /// Nothing is read.
    Answer(ToolOutcome),
}

/// A candidate as an unclear reference lists it.
pub open spec fn candidate_row(r: ChatRefView) -> Seq<char> {
    "\""@ + r.title + "\" "@ + address_of(r.id)
}

pub open spec fn candidate_rows(refs: Seq<ChatRefView>, found: Seq<int>, n: int) -> Seq<Seq<char>>
    decreases n,
{
    if n <= 0 {
        Seq::empty()
    } else {
        candidate_rows(refs, found, n - 1).push(candidate_row(refs[found[n - 1]]))
    }
}

fn list_candidates(refs: &Vec<ChatRef>, found: &Vec<usize>) -> (r: String)
    requires
        forall|i: int| 0 <= i < found@.len() ==> #[trigger] found@[i] < refs.len(),
    ensures
        r@ == text::joined(
            candidate_rows(
                ref_views(refs@),
                order::as_ints(found@),
                crate::code::look::lesser(found.len() as int, AMBIGUOUS_CAP as int),
            ),
            "; "@,
        ),
{
    let n: usize = if found.len() < AMBIGUOUS_CAP {
        found.len()
    } else {
        AMBIGUOUS_CAP
    };
    let mut rows: Vec<String> = Vec::new();
    let mut i: usize = 0;
    assert(text::views(rows@) =~= Seq::<Seq<char>>::empty());
    while i < n
        invariant
            i <= n <= found.len(),
            forall|j: int| 0 <= j < found@.len() ==> #[trigger] found@[j] < refs.len(),
            text::views(rows@) == candidate_rows(
                ref_views(refs@),
                order::as_ints(found@),
                i as int,
            ),
        decreases n - i,
    {
        let x: &ChatRef = &refs[found[i]];
        assert(ref_views(refs@)[found@[i as int] as int] == x@);
        assert(order::as_ints(found@)[i as int] == found@[i as int] as int);
        let at: String = address(x.id);
        rows.push(text::cat4("\"", x.title.as_str(), "\" ", at.as_str()));
        i = i + 1;
    }
    text::join(&rows, "; ")
}

/// The reference that a call gives, without its margins.
pub open spec fn reference_of(args: crate::json::JsonView) -> Seq<char> {
    match args.str_at("chat"@) {
        Some(s) => text::trimmed(s),
        None => text::trimmed(Seq::empty()),
    }
}

/// A conversation's text by pages.
#[derive(Debug)]
pub enum Transcript {
    /// It cannot be read now.
    Unavailable,
    /// It has nothing to show.
    Empty,
    Pages(Vec<String>),
}

impl ChatRead {
    /// Which conversation to read. A call without a reference is wrong; one that
    /// means nothing, or several conversations, is answered.
    pub fn pick(&self, refs: &Vec<ChatRef>, args: &Json, loc: &Locale) -> (r: Result<
        Choice,
        String,
    >)
        ensures
            ({
                let reference = reference_of(args@);
                let found = settled(ref_views(refs@), text::trimmed(reference));
                match r {
                    Ok(Choice::Read(i)) => refs@.len() > 0 && reference.len() > 0 && found
                        == seq![i as int] && i < refs.len(),
                    Ok(Choice::Answer(o)) => {
                        ||| refs@.len() == 0 && o.says(loc.text("tool.chats.none"@))
                        ||| refs@.len() > 0 && reference.len() > 0 && found.len() == 0 && o.says(
                            loc.text1("tool.chat_read.unknown"@, "chat"@, reference),
                        )
                        ||| refs@.len() > 0 && reference.len() > 0 && found.len() > 1 && o.says(
                            loc.text2(
                                "tool.chat_read.ambiguous"@,
                                "chat"@,
                                reference,
                                "candidates"@,
                                text::joined(
                                    candidate_rows(
                                        ref_views(refs@),
                                        found,
                                        crate::code::look::lesser(
                                            found.len() as int,
                                            AMBIGUOUS_CAP as int,
                                        ),
                                    ),
                                    "; "@,
                                ),
                            ),
                        )
                    },
                    Err(e) => refs@.len() > 0 && reference.len() == 0 && e@ == loc.text(
                        "tool.chat_read.err.chat_empty"@,
                    ),
                }
            }),
    {
        if refs.len() == 0 {
            return Ok(Choice::Answer(no_other_chats(loc)));
        }
        let reference: String = match args.get_str("chat") {
            Some(s) => text::trim(s.as_str()),
            None => text::trim(String::new().as_str()),
        };
        if reference.as_str().is_empty() {
            return Err(text::owned(loc.t("tool.chat_read.err.chat_empty")));
        }
        match resolve(refs, reference.as_str()) {
            Resolved::One(i) => Ok(Choice::Read(i)),
            Resolved::Ambiguous(v) => {
                assert(order::as_ints(v@).len() == v@.len());
                let listed: String = list_candidates(refs, &v);
                Ok(
                    Choice::Answer(
                        ToolOutcome::text(
                            loc.tf2(
                                "tool.chat_read.ambiguous",
                                "chat",
                                reference.as_str(),
                                "candidates",
                                listed.as_str(),
                            ),
                        ),
                    ),
                )
            },
            Resolved::Nothing => Ok(
                Choice::Answer(
                    ToolOutcome::text(
                        loc.tf1("tool.chat_read.unknown", "chat", reference.as_str()),
                    ),
                ),
            ),
        }
    }

    /// The answer: one page of the conversation under its header. A page that is not
    /// there is answered with how many there are.
    pub fn outcome(&self, r: &ChatRef, transcript: &Transcript, args: &Json, loc: &Locale) -> (o:
        ToolOutcome)
        ensures
            ({
                let title = label_of(r@, *loc);
                let page = search::page_of(args@);
                o.says(
                    match *transcript {
                        Transcript::Unavailable => loc.text1(
                            "tool.chat_read.unavailable"@,
                            "title"@,
                            title,
                        ),
                        Transcript::Empty => loc.text1("tool.chat_read.empty"@, "title"@, title),
                        Transcript::Pages(pages) => if 1 <= page <= pages@.len() {
                            loc.text4(
                                "tool.chat_read.header"@,
                                "title"@,
                                title,
                                "id"@,
                                address_of(r.id),
                                "page"@,
                                text::decimal(page as nat),
                                "total"@,
                                text::decimal(pages@.len()),
                            ) + "\n"@ + pages@[page - 1]@
                        } else {
                            loc.text3(
                                "tool.chat_read.bad_page"@,
                                "page"@,
                                text::decimal(page as nat),
                                "title"@,
                                title,
                                "total"@,
                                text::decimal(pages@.len()),
                            )
                        },
                    },
                )
            }),
    {
        let title: String = r.label(loc);
        match transcript {
            Transcript::Unavailable => ToolOutcome::text(
                loc.tf1("tool.chat_read.unavailable", "title", title.as_str()),
            ),
            Transcript::Empty => ToolOutcome::text(
                loc.tf1("tool.chat_read.empty", "title", title.as_str()),
            ),
            Transcript::Pages(pages) => {
                let page: u64 = search::page_arg(args);
                let n: String = text::dec(page);
                let total: String = text::dec_usize(pages.len());
                if page < 1 || page > pages.len() as u64 {
                    return ToolOutcome::text(
                        loc.tf3(
                            "tool.chat_read.bad_page",
                            "page",
                            n.as_str(),
                            "title",
                            title.as_str(),
                            "total",
                            total.as_str(),
                        ),
                    );
                }
                let at: String = address(r.id);
                let head: String = loc.tf4(
                    "tool.chat_read.header",
                    "title",
                    title.as_str(),
                    "id",
                    at.as_str(),
                    "page",
                    n.as_str(),
                    "total",
                    total.as_str(),
                );
                ToolOutcome::text(
                    text::cat3(head.as_str(), "\n", pages[(page - 1) as usize].as_str()),
                )
            },
        }
    }
}

// ---------- chat_search ----------

/// `chat_search`.
pub struct ChatSearch;

/// A message that matches.
#[derive(Debug)]
pub struct MessageHit {
    /// The conversation it is in.
    pub scope: u128,
    pub role: String,
    /// When it was written, by a timestamp.
    pub ts: String,
    /// The text round the match.
    pub snippet: String,
    /// The page of the conversation it is on, where that is known.
    pub page: Option<u64>,
}

/// A hit: its number, who wrote it and when, where it stands, and the text.
pub open spec fn hit_text(h: MessageHit, n: nat, loc: Locale) -> Seq<char> {
    let head = match h.page {
        Some(page) => loc.text4(
            "tool.chat_search.hit"@,
            "n"@,
            text::decimal(n),
            "role"@,
            h.role@,
            "date"@,
            date_part(h.ts@),
            "page"@,
            text::decimal(page as nat),
        ),
        None => loc.text3(
            "tool.chat_search.hit_unpaged"@,
            "n"@,
            text::decimal(n),
            "role"@,
            h.role@,
            "date"@,
            date_part(h.ts@),
        ),
    };
    head + "\n"@ + h.snippet@
}

/// A hit as it is shown.
pub fn render_hit(h: &MessageHit, n: u64, loc: &Locale) -> (r: String)
    ensures
        r@ == hit_text(*h, n as nat, *loc),
{
    let number: String = text::dec(n);
    let date: String = date_of(h.ts.as_str());
    let mut out: String = match h.page {
        Some(page) => {
            let p: String = text::dec(page);
            loc.tf4(
                "tool.chat_search.hit",
                "n",
                number.as_str(),
                "role",
                h.role.as_str(),
                "date",
                date.as_str(),
                "page",
                p.as_str(),
            )
        },
        None => loc.tf3(
            "tool.chat_search.hit_unpaged",
            "n",
            number.as_str(),
            "role",
            h.role.as_str(),
            "date",
            date.as_str(),
        ),
    };
    out.push_str("\n");
    out.push_str(h.snippet.as_str());
    out
}

/// The positions of the hits in a conversation, among the first `n`.
pub open spec fn hits_in(hits: Seq<MessageHit>, scope: u128, n: int) -> Seq<int>
    decreases n,
{
    if n <= 0 {
        Seq::empty()
    } else {
        let before = hits_in(hits, scope, n - 1);
        if hits[n - 1].scope == scope {
            before.push(n - 1)
        } else {
            before
        }
    }
}

/// The timestamps of the hits at these positions.
pub open spec fn stamps(hits: Seq<MessageHit>, at: Seq<int>) -> Seq<Seq<char>> {
    at.map_values(|i: int| hits[i].ts@)
}

/// The hits of a conversation in the order they were written in.
pub open spec fn hits_in_order(hits: Seq<MessageHit>, scope: u128) -> Seq<int> {
    let at = hits_in(hits, scope, hits.len() as int);
    order::rising(stamps(hits, at), at.len() as int).map_values(|k: int| at[k])
}

/// The first `n` hits of a list, numbered on from `shown`.
pub open spec fn hits_shown(
    hits: Seq<MessageHit>,
    at: Seq<int>,
    shown: int,
    n: int,
    loc: Locale,
) -> Seq<char>
    decreases n,
{
    if n <= 0 {
        Seq::empty()
    } else {
        hits_shown(hits, at, shown, n - 1, loc) + "\n\n"@ + hit_text(
            hits[at[n - 1]],
            (shown + n) as nat,
            loc,
        )
    }
}

/// The date of a conversation's last activity.
pub open spec fn day_of(at: Moment) -> Seq<char> {
    crate::datetime::or_empty(times::strftime(at.secs, at.nanos, at.offset, "%Y-%m-%d"@))
}

/// The heading of a conversation among the hits.
pub open spec fn chat_heading(r: ChatRefView, loc: Locale) -> Seq<char> {
    loc.text3(
        "tool.chat_search.chat"@,
        "title"@,
        label_of(r, loc),
        "id"@,
        address_of(r.id),
        "date"@,
        day_of(r.modified_at),
    )
}

/// When the conversations were last active.
pub open spec fn ages(refs: Seq<ChatRefView>) -> Seq<i128> {
    refs.map_values(|r: ChatRefView| r.modified_at.rank() as i128)
}

/// The conversations from the most recent one on.
pub open spec fn by_recency(refs: Seq<ChatRefView>) -> Seq<int> {
    order::falling(ages(refs), refs.len() as int)
}

/// Every conversation has its place in the order, and none comes before one that was
/// active after it.
pub proof fn the_most_recent_come_first(refs: Seq<ChatRefView>)
    ensures
        order::is_order(by_recency(refs), refs.len() as int),
        forall|i: int, j: int|
            0 <= i < j < refs.len() ==> refs[#[trigger] by_recency(refs)[i]].modified_at.rank()
                >= refs[#[trigger] by_recency(refs)[j]].modified_at.rank(),
{
    order::falling_is_an_order(ages(refs), refs.len() as int);
    let at = by_recency(refs);
    assert forall|i: int, j: int| 0 <= i < j < refs.len() implies refs[#[trigger] at[i]].modified_at.rank()
        >= refs[#[trigger] at[j]].modified_at.rank() by {
        assert(0 <= at[i] < refs.len() && 0 <= at[j] < refs.len());
        assert(ages(refs)[at[i]] >= ages(refs)[at[j]]);
    }
}

/// One of the first `n` conversations has this identifier.
pub open spec fn came_before(refs: Seq<ChatRefView>, at: Seq<int>, n: int, id: u128) -> bool {
    exists|i: int| 0 <= i < n && refs[#[trigger] at[i]].id == id
}

/// What the first `n` conversations show, and how many hits that is: `k` at most in
/// all. A conversation without a hit is passed over.
pub open spec fn grouped(
    refs: Seq<ChatRefView>,
    at: Seq<int>,
    hits: Seq<MessageHit>,
    k: int,
    n: int,
    loc: Locale,
) -> (Seq<char>, int)
    decreases n,
{
    if n <= 0 {
        (Seq::empty(), 0)
    } else {
        let (body, shown) = grouped(refs, at, hits, k, n - 1, loc);
        let r = refs[at[n - 1]];
        let own = hits_in_order(hits, r.id);
        if shown >= k || own.len() == 0 || came_before(refs, at, n - 1, r.id) {
            (body, shown)
        } else {
            let m = crate::code::look::lesser(own.len() as int, k - shown);
            (
                body + "\n\n"@ + chat_heading(r, loc) + hits_shown(hits, own, shown, m, loc),
                shown + m,
            )
        }
    }
}

fn list_hits(hits: &Vec<MessageHit>, scope: u128) -> (r: Vec<usize>)
    ensures
        order::as_ints(r@) == hits_in_order(hits@, scope),
        forall|i: int| 0 <= i < r@.len() ==> #[trigger] r@[i] < hits.len(),
{
    let mut at: Vec<usize> = Vec::new();
    let mut keys: Vec<String> = Vec::new();
    let mut i: usize = 0;
    assert(order::as_ints(at@) =~= Seq::<int>::empty());
    while i < hits.len()
        invariant
            i <= hits.len(),
            at@.len() == keys@.len(),
            order::as_ints(at@) =~= hits_in(hits@, scope, i as int),
            text::views(keys@) =~= stamps(hits@, order::as_ints(at@)),
            forall|j: int| 0 <= j < at@.len() ==> #[trigger] at@[j] < i,
        decreases hits.len() - i,
    {
        if hits[i].scope == scope {
            let ghost before = order::as_ints(at@);
            at.push(i);
            assert(order::as_ints(at@) =~= before.push(i as int));
            keys.push(hits[i].ts.clone());
        }
        i = i + 1;
    }
    let sorted: Vec<usize> = order::order_rising(&keys);
    let ghost pos = order::as_ints(at@);
    let ghost idx = order::as_ints(sorted@);
    let mut r: Vec<usize> = Vec::new();
    let mut k: usize = 0;
    assert(order::as_ints(r@) =~= idx.map_values(|j: int| pos[j]).take(0));
    while k < sorted.len()
        invariant
            k <= sorted.len(),
            sorted@.len() == at@.len(),
            pos == order::as_ints(at@),
            idx == order::as_ints(sorted@),
            forall|j: int| 0 <= j < sorted@.len() ==> #[trigger] sorted@[j] < at@.len(),
            forall|j: int| 0 <= j < at@.len() ==> #[trigger] at@[j] < hits.len(),
            order::as_ints(r@) =~= idx.map_values(|j: int| pos[j]).take(k as int),
            forall|j: int| 0 <= j < r@.len() ==> #[trigger] r@[j] < hits.len(),
        decreases sorted.len() - k,
    {
        let ghost before = order::as_ints(r@);
        assert(idx[k as int] == sorted@[k as int] as int);
        r.push(at[sorted[k]]);
        assert(order::as_ints(r@) =~= before.push(pos[idx[k as int]]));
        k = k + 1;
    }
    assert(order::as_ints(r@) =~= idx.map_values(|j: int| pos[j]));
    r
}

fn recent_first(refs: &Vec<ChatRef>) -> (r: Vec<usize>)
    ensures
        order::as_ints(r@) == by_recency(ref_views(refs@)),
        forall|i: int| 0 <= i < r@.len() ==> #[trigger] r@[i] < refs.len(),
        r@.len() == refs@.len(),
{
    let ghost all = ref_views(refs@);
    let mut keys: Vec<i128> = Vec::new();
    let mut i: usize = 0;
    while i < refs.len()
        invariant
            i <= refs.len(),
            all == ref_views(refs@),
            keys@ =~= ages(all).take(i as int),
        decreases refs.len() - i,
    {
        keys.push(refs[i].modified_at.place());
        assert(all[i as int] == refs@[i as int]@);
        i = i + 1;
    }
    assert(keys@ =~= ages(all));
    order::order_falling(&keys)
}

/// The hits grouped by conversation: the most recent conversation first, the hits of
/// each in the order they were written in, `k` hits at most. Also says how many are
/// shown.
pub fn render_grouped_hits(refs: &Vec<ChatRef>, hits: &Vec<MessageHit>, k: u64, loc: &Locale) -> (r:
    (String, u64))
    ensures
        ({
            let all = ref_views(refs@);
            let g = grouped(all, by_recency(all), hits@, k as int, all.len() as int, *loc);
            r.0@ == g.0 && r.1 == g.1
        }),
{
    let ghost all = ref_views(refs@);
    let at: Vec<usize> = recent_first(refs);
    let ghost idx = order::as_ints(at@);
    let mut body: String = String::new();
    let mut shown: u64 = 0;
    let mut i: usize = 0;
    while i < at.len()
        invariant
            i <= at.len(),
            all == ref_views(refs@),
            idx == order::as_ints(at@),
            forall|j: int| 0 <= j < at@.len() ==> #[trigger] at@[j] < refs.len(),
            shown <= k,
            ({
                let g = grouped(all, idx, hits@, k as int, i as int, *loc);
                body@ == g.0 && shown == g.1
            }),
        decreases at.len() - i,
    {
        let r: &ChatRef = &refs[at[i]];
        assert(idx[i as int] == at@[i as int] as int);
        assert(all[idx[i as int]] == r@);
        if shown < k && !seen_before(refs, &at, i, r.id) {
            let own: Vec<usize> = list_hits(hits, r.id);
            assert(order::as_ints(own@).len() == own@.len());
            if own.len() > 0 {
                let title: String = r.label(loc);
                let id: String = address(r.id);
                let day: String = match times::format_at(
                    r.modified_at.secs,
                    r.modified_at.nanos,
                    r.modified_at.offset,
                    "%Y-%m-%d",
                ) {
                    Some(s) => s,
                    None => String::new(),
                };
                let heading: String = loc.tf3(
                    "tool.chat_search.chat",
                    "title",
                    title.as_str(),
                    "id",
                    id.as_str(),
                    "date",
                    day.as_str(),
                );
                body.push_str("\n\n");
                body.push_str(heading.as_str());
                let room: u64 = k - shown;
                let m: usize = if own.len() as u64 <= room {
                    own.len()
                } else {
                    room as usize
                };
                let rows: String = list_shown(hits, &own, shown, m, loc);
                body.push_str(rows.as_str());
                shown = shown + m as u64;
            }
        }
        i = i + 1;
    }
    (body, shown)
}

fn list_shown(hits: &Vec<MessageHit>, at: &Vec<usize>, shown: u64, n: usize, loc: &Locale) -> (r:
    String)
    requires
        n <= at.len(),
        shown + n <= u64::MAX,
        forall|i: int| 0 <= i < at@.len() ==> #[trigger] at@[i] < hits.len(),
    ensures
        r@ == hits_shown(hits@, order::as_ints(at@), shown as int, n as int, *loc),
{
    let mut r: String = String::new();
    let mut i: usize = 0;
    while i < n
        invariant
            i <= n <= at.len(),
            shown + n <= u64::MAX,
            forall|j: int| 0 <= j < at@.len() ==> #[trigger] at@[j] < hits.len(),
            r@ == hits_shown(hits@, order::as_ints(at@), shown as int, i as int, *loc),
        decreases n - i,
    {
        assert(order::as_ints(at@)[i as int] == at@[i as int] as int);
        let row: String = render_hit(&hits[at[i]], shown + i as u64 + 1, loc);
        r.push_str("\n\n");
        r.push_str(row.as_str());
        i = i + 1;
    }
    r
}

fn seen_before(refs: &Vec<ChatRef>, at: &Vec<usize>, n: usize, id: u128) -> (r: bool)
    requires
        n <= at.len(),
        forall|i: int| 0 <= i < at@.len() ==> #[trigger] at@[i] < refs.len(),
    ensures
        r == came_before(ref_views(refs@), order::as_ints(at@), n as int, id),
{
    let ghost all = ref_views(refs@);
    let ghost idx = order::as_ints(at@);
    let mut i: usize = 0;
    while i < n
        invariant
            i <= n <= at.len(),
            all == ref_views(refs@),
            idx == order::as_ints(at@),
            forall|j: int| 0 <= j < at@.len() ==> #[trigger] at@[j] < refs.len(),
            forall|j: int| 0 <= j < i ==> all[#[trigger] idx[j]].id != id,
        decreases n - i,
    {
        assert(idx[i as int] == at@[i as int] as int);
        assert(all[idx[i as int]] == refs@[at@[i as int] as int]@);
        if refs[at[i]].id == id {
            assert(all[idx[i as int]].id == id);
            return true;
        }
        i = i + 1;
    }
    false
}

/// No more hits are shown than were asked for.
pub proof fn a_search_shows_no_more_than_asked(
    refs: Seq<ChatRefView>,
    at: Seq<int>,
    hits: Seq<MessageHit>,
    k: int,
    n: int,
    loc: Locale,
)
    requires
        0 <= k,
    ensures
        0 <= grouped(refs, at, hits, k, n, loc).1 <= k,
    decreases n,
{
    if n > 0 {
        a_search_shows_no_more_than_asked(refs, at, hits, k, n - 1, loc);
    }
}

/// How a search begins.
#[derive(Debug)]
pub enum SearchStart {
    /// Look for this, and show so many hits.
    Query { query: String, k: u64 },
    /// There is nothing to search.
    Answer(ToolOutcome),
}

/// What a search found.
#[derive(Debug)]
pub enum SearchFound {
    /// The query is too short for the index.
    TooShort,
    /// The index cannot be read.
    Unavailable,
    /// These messages, and how many match in all.
    Hits { hits: Vec<MessageHit>, total: u64 },
}

/// How many messages match in all: where the scan stopped at its cap, the count, and
/// otherwise what the scan found.
pub fn total_hits(found: u64, cap: u64, counted: Option<u64>) -> (r: u64)
    ensures
        r == (if found >= cap && counted is Some {
            counted->0
        } else {
            found
        }),
{
    if found >= cap {
        match counted {
            Some(n) => n,
            None => found,
        }
    } else {
        found
    }
}

impl ChatSearch {
    /// Reads the arguments of a search. Where there is no other conversation, that is
    /// the answer; a call without a query is wrong.
    pub fn start(&self, refs: &Vec<ChatRef>, args: &Json, loc: &Locale) -> (r: Result<
        SearchStart,
        String,
    >)
        ensures
            match r {
                Ok(SearchStart::Answer(o)) => refs@.len() == 0 && o.says(
                    loc.text("tool.chats.none"@),
                ),
                Ok(SearchStart::Query { query, k }) => {
                    let asked = search::top_k_of(args@, DEFAULT_TOP_K);
                    &&& refs@.len() > 0
                    &&& query@ == search::query_of(args@) && query@.len() > 0
                    &&& k == (if asked > MAX_TOP_K {
                        MAX_TOP_K
                    } else {
                        asked
                    })
                },
                Err(e) => refs@.len() > 0 && search::query_of(args@).len() == 0 && e@ == loc.text(
                    "tool.chat_search.err.query_empty"@,
                ),
            },
    {
        if refs.len() == 0 {
            return Ok(SearchStart::Answer(no_other_chats(loc)));
        }
        match search::search_args(args, loc, "tool.chat_search.err.query_empty", DEFAULT_TOP_K) {
            Ok((query, asked)) => Ok(
                SearchStart::Query {
                    query,
                    k: if asked > MAX_TOP_K {
                        MAX_TOP_K
                    } else {
                        asked
                    },
                },
            ),
            Err(e) => Err(e),
        }
    }

    /// The answer, by what was found.
    pub fn outcome(&self, refs: &Vec<ChatRef>, found: &SearchFound, k: u64, loc: &Locale) -> (r:
        ToolOutcome)
        ensures
            r.says(
                match *found {
                    SearchFound::TooShort => loc.text("tool.chat_search.too_short"@),
                    SearchFound::Unavailable => loc.text("tool.chat_search.unavailable"@),
                    SearchFound::Hits { hits, total } => if hits@.len() == 0 {
                        loc.text("tool.chat_search.empty"@)
                    } else {
                        let all = ref_views(refs@);
                        let g = grouped(
                            all,
                            by_recency(all),
                            hits@,
                            k as int,
                            all.len() as int,
                            *loc,
                        );
                        loc.text2(
                            "tool.chat_search.header"@,
                            "n"@,
                            text::decimal(g.1 as nat),
                            "total"@,
                            text::decimal(total as nat),
                        ) + g.0 + "\n\n"@ + loc.text("tool.chat_search.hint"@)
                    },
                },
            ),
    {
        match found {
            SearchFound::TooShort => ToolOutcome::text(
                text::owned(loc.t("tool.chat_search.too_short")),
            ),
            SearchFound::Unavailable => ToolOutcome::text(
                text::owned(loc.t("tool.chat_search.unavailable")),
            ),
            SearchFound::Hits { hits, total } => {
                if hits.len() == 0 {
                    return ToolOutcome::text(text::owned(loc.t("tool.chat_search.empty")));
                }
                let (body, shown) = render_grouped_hits(refs, hits, k, loc);
                let n: String = text::dec(shown);
                let t: String = text::dec(*total);
                let head: String = loc.tf2(
                    "tool.chat_search.header",
                    "n",
                    n.as_str(),
                    "total",
                    t.as_str(),
                );
                ToolOutcome::text(
                    text::cat4(
                        head.as_str(),
                        body.as_str(),
                        "\n\n",
                        loc.t("tool.chat_search.hint"),
                    ),
                )
            },
        }
    }
}

} // verus!
