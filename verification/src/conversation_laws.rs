//! What is in reach of other conversations, of the folded part of one, and of attached
//! files, and how it is shown; said of the chats, messages and files.

use vstd::prelude::*;
use crate::attachment;
use crate::attachment::{Attachment, Passage};
use crate::chats;
use crate::chats::{Chat, ChatRefView, MessageHit, Rung};
use crate::history;
use crate::history::HistoryHit;
use crate::i18n::Locale;
use crate::ids;
use crate::json::JsonView;
use crate::order;
use crate::search;
use crate::text;

verus! {

// ---------- what is in reach ----------

/// A chat brings itself into reach unless it is the current one, and its transcripts in
/// their order, each as of its end; nothing where it is another profile's or hidden. The
/// chats come in their order.
pub proof fn one_chat_more(chats: Seq<Chat>, c: Chat, profile_id: u128, current: u128)
    ensures
        chats::snapshot(Seq::empty(), profile_id, current) == Seq::<ChatRefView>::empty(),
        ({
            let before = chats::snapshot(chats, profile_id, current);
            let after = chats::snapshot(chats.push(c), profile_id, current);
            let own: int = if c.id == current {
                0
            } else {
                1
            };
            &&& c.profile_id != profile_id || c.is_hidden ==> after == before
            &&& c.profile_id == profile_id && !c.is_hidden ==> {
                &&& after.len() == before.len() + own + c.runs@.len()
                &&& forall|i: int| 0 <= i < before.len() ==> #[trigger] after[i] == before[i]
                &&& c.id != current ==> after[before.len() as int] == (ChatRefView {
                    id: c.id,
                    title: c.title@,
                    modified_at: c.modified_at,
                    parent: None,
                })
                &&& forall|k: int|
                    0 <= k < c.runs@.len() ==> after[before.len() + own + k] == (ChatRefView {
                        id: (#[trigger] c.runs@[k]).id,
                        title: c.runs@[k].title@,
                        modified_at: match c.runs@[k].finished_at {
                            Some(t) => t,
                            None => c.runs@[k].created_at,
                        },
                        parent: Some((c.id, c.title@)),
                    })
            }
        }),
{
    assert(chats.push(c).drop_last() =~= chats);
    let before = chats::snapshot(chats, profile_id, current);
    if c.profile_id != profile_id || c.is_hidden {
        assert(before + Seq::<ChatRefView>::empty() =~= before);
    }
}

// ---------- which conversation is meant ----------

/// The conversations that a reference means in one way are those that it means, and they
/// come in their order.
pub proof fn all_that_are_meant(
    refs: Seq<ChatRefView>,
    needle: Seq<char>,
    rung: Rung,
    n: int,
    i: int,
)
    requires
        0 <= n <= refs.len(),
    ensures
        chats::meant(refs, needle, rung, n).contains(i) <==> 0 <= i < n && chats::means(
            refs[i],
            needle,
            rung,
        ),
        forall|a: int, b: int|
            0 <= a < b < chats::meant(refs, needle, rung, n).len() ==> #[trigger] chats::meant(
                refs,
                needle,
                rung,
                n,
            )[a] < #[trigger] chats::meant(refs, needle, rung, n)[b],
        forall|a: int|
            0 <= a < chats::meant(refs, needle, rung, n).len() ==> 0 <= #[trigger] chats::meant(
                refs,
                needle,
                rung,
                n,
            )[a] < n,
    decreases n,
{
    if n > 0 {
        all_that_are_meant(refs, needle, rung, n - 1, i);
        let before = chats::meant(refs, needle, rung, n - 1);
        let now = chats::meant(refs, needle, rung, n);
        if now.contains(i) {
            let k = choose|k: int| 0 <= k < now.len() && now[k] == i;
            if k < before.len() {
                assert(before[k] == i);
                assert(before.contains(i));
            }
        }
        if before.contains(i) {
            let k = choose|k: int| 0 <= k < before.len() && before[k] == i;
            assert(now[k] == i);
        }
        if i == n - 1 && chats::means(refs[i], needle, rung) {
            assert(now[now.len() - 1] == i);
        }
    }
}

/// What a reference means is settled by its digits first: if they begin the identifiers
/// of some conversations it means those and no other. Only where they begin none does it
/// go by the titles that are the reference, letter case and margins apart; and only where
/// there is none of these, by the titles that it stands in. An empty one means nothing.
pub proof fn the_first_way_settles(refs: Seq<ChatRefView>, needle: Seq<char>, i: int)
    requires
        0 <= i < refs.len(),
        needle.len() > 0,
    ensures
        ({
            let by_digits = |r: ChatRefView|
                chats::hex_of(needle) matches Some(h) && h.is_prefix_of(
                    ids::hex_digits(r.id as nat, 32),
                );
            let by_title = |r: ChatRefView|
                text::lowercase(text::trimmed(r.title)) == text::lowercase(needle);
            let in_title = |r: ChatRefView|
                text::occurs(text::lowercase(r.title), text::lowercase(needle));
            let some_digits = exists|j: int| 0 <= j < refs.len() && by_digits(#[trigger] refs[j]);
            let some_title = exists|j: int| 0 <= j < refs.len() && by_title(#[trigger] refs[j]);
            chats::settled(refs, needle).contains(i) <==> if some_digits {
                by_digits(refs[i])
            } else if some_title {
                by_title(refs[i])
            } else {
                in_title(refs[i])
            }
        }),
        chats::settled(refs, Seq::empty()) == Seq::<int>::empty(),
{
    let n = refs.len() as int;
    let by_digits = |r: ChatRefView|
        chats::hex_of(needle) matches Some(h) && h.is_prefix_of(ids::hex_digits(r.id as nat, 32));
    let by_title = |r: ChatRefView|
        text::lowercase(text::trimmed(r.title)) == text::lowercase(needle);
    assert forall|j: int| 0 <= j < n implies #[trigger] by_digits(refs[j]) == chats::means(
        refs[j],
        needle,
        Rung::Address,
    ) by {
        if chats::hex_of(needle) is Some {
            let h = chats::hex_of(needle)->0;
            let d = ids::hex_digits(refs[j].id as nat, 32);
            if h.len() <= d.len() {
                assert(d.subrange(0, h.len() as int) == d.subrange(0, 0 + h.len() as int));
            }
        }
    }
    all_that_are_meant(refs, needle, Rung::Address, n, i);
    all_that_are_meant(refs, needle, Rung::Title, n, i);
    all_that_are_meant(refs, needle, Rung::InTitle, n, i);
    let a = chats::meant(refs, needle, Rung::Address, n);
    let t = chats::meant(refs, needle, Rung::Title, n);
    if exists|j: int| 0 <= j < n && by_digits(#[trigger] refs[j]) {
        let j = choose|j: int| 0 <= j < n && by_digits(#[trigger] refs[j]);
        all_that_are_meant(refs, needle, Rung::Address, n, j);
        assert(a.contains(j));
        assert(a.len() > 0);
    } else if a.len() > 0 {
        all_that_are_meant(refs, needle, Rung::Address, n, a[0]);
        assert(a.contains(a[0]));
        assert(by_digits(refs[a[0]]));
    }
    if exists|j: int| 0 <= j < n && by_title(#[trigger] refs[j]) {
        let j = choose|j: int| 0 <= j < n && by_title(#[trigger] refs[j]);
        all_that_are_meant(refs, needle, Rung::Title, n, j);
        assert(t.contains(j));
        assert(t.len() > 0);
    } else if t.len() > 0 {
        all_that_are_meant(refs, needle, Rung::Title, n, t[0]);
        assert(t.contains(t[0]));
        assert(by_title(refs[t[0]]));
    }
}

/// Small hexadecimal digits are a reference as they stand; letter case does not matter;
/// and whatever is such a reference has nothing but these digits in it.
pub proof fn digits_are_a_reference(s: Seq<char>)
    ensures
        s.len() > 0 && s.len() < 7 && (forall|i: int|
            0 <= i < s.len() ==> '0' <= #[trigger] s[i] <= '9' || 'a' <= s[i] <= 'f')
            ==> chats::hex_of(s) == Some(s),
        chats::hex_of(s) == chats::hex_of(text::ascii_lowered(s)),
        chats::hex_of(s) matches Some(h) ==> h.len() > 0 && forall|i: int|
            0 <= i < h.len() ==> '0' <= #[trigger] h[i] <= '9' || 'a' <= h[i] <= 'f',
{
    let low = text::ascii_lowered(s);
    assert(text::ascii_lowered(low) =~= low);
    reveal_strlit("chat://");
    reveal_strlit("-");
    if chats::hex_of(s) is Some {
        let h = chats::hex_of(s)->0;
        assert forall|i: int| 0 <= i < h.len() implies '0' <= #[trigger] h[i] <= '9' || 'a' <= h[i]
            <= 'f' by {
            assert(chats::is_hex(h[i]));
        }
    }
    if s.len() > 0 && s.len() < 7 && (forall|i: int|
        0 <= i < s.len() ==> '0' <= #[trigger] s[i] <= '9' || 'a' <= s[i] <= 'f') {
        assert(low =~= s);
        let pieces = seq![s];
        assert forall|j: int|
            0 <= j < s.len() && j + "-"@.len() <= s.len() implies #[trigger] s.subrange(
            j,
            j + "-"@.len(),
        ) != "-"@ by {
            assert(s.subrange(j, j + 1)[0] == s[j]);
        }
        crate::text_laws::every_occurrence_is_exchanged_once(pieces, "-"@, Seq::empty());
        assert(chats::is_hex_run(s));
    }
}

/// A conversation's address is the scheme and the first eight digits of its identifier.
pub proof fn an_address_is_short(id: u128)
    ensures
        chats::address_of(id) == "chat://"@ + ids::hex_digits(id as nat, 32).subrange(0, 8),
{
    ids::hex_digits_are_hex(id as nat, 32);
    let d = ids::hex_digits(id as nat, 32);
    assert(d.take(8) =~= d.subrange(0, 8));
}

/// A conversation goes by its title, and a transcript by that of its chat as well.
pub proof fn a_conversation_goes_by_its_title(r: ChatRefView, loc: Locale)
    ensures
        r.parent is None ==> chats::label_of(r, loc) == r.title,
        r.parent matches Some(p) ==> chats::label_of(r, loc) == loc.text2(
            "tool.chat_search.child"@,
            "title"@,
            r.title,
            "parent"@,
            p.1,
        ),
{
}

/// An unclear reference lists the conversations it may mean in their order, each by its
/// title and its address; six of them at most.
pub proof fn one_candidate_more(refs: Seq<ChatRefView>, found: Seq<int>, n: int)
    requires
        0 <= n < found.len(),
    ensures
        chats::AMBIGUOUS_CAP == 6,
        chats::candidate_rows(refs, found, 0) == Seq::<Seq<char>>::empty(),
        chats::candidate_rows(refs, found, n + 1) == chats::candidate_rows(refs, found, n).push(
            "\""@ + refs[found[n]].title + "\" "@ + chats::address_of(refs[found[n]].id),
        ),
{
}

// ---------- chat_search ----------

/// The date of a message is what stands before the first `T` of its timestamp.
pub proof fn a_date_stands_before_its_time(day: Seq<char>, time: Seq<char>)
    requires
        forall|i: int| 0 <= i < day.len() ==> #[trigger] day[i] != 'T',
    ensures
        chats::date_part(day.push('T') + time) == day,
        chats::date_part(day) == day,
{
    let s = day.push('T') + time;
    let t = seq!['T'];
    text::find_is_first(s, t, 0);
    text::find_is_first(day, t, 0);
    assert(s.subrange(day.len() as int, day.len() as int + 1) =~= t);
    assert(text::stands_at(s, t, day.len() as int));
    let i = text::find_from(s, t, 0);
    if i < day.len() {
        assert(s.subrange(i, i + 1)[0] == day[i]);
    }
    assert(s.take(day.len() as int) =~= day);
    let k = text::find_from(day, t, 0);
    if k >= 0 {
        assert(day.subrange(k, k + 1)[0] == day[k]);
    }
}

/// The hits of a conversation are all that are in it, from the earliest timestamp on.
pub proof fn hits_come_as_they_were_written(hits: Seq<MessageHit>, scope: u128, i: int)
    requires
        0 <= i < hits.len(),
    ensures
        chats::hits_in_order(hits, scope).contains(i) <==> hits[i].scope == scope,
        forall|a: int, b: int|
            0 <= a < b < chats::hits_in_order(hits, scope).len() ==> text::not_after(
                hits[#[trigger] chats::hits_in_order(hits, scope)[a]].ts@,
                hits[#[trigger] chats::hits_in_order(hits, scope)[b]].ts@,
            ),
{
    let n = hits.len() as int;
    let at = chats::hits_in(hits, scope, n);
    let keys = chats::stamps(hits, at);
    let m = at.len() as int;
    let idx = order::rising(keys, m);
    let now = chats::hits_in_order(hits, scope);
    order::rising_is_an_order(keys, m);
    hits_in_are_theirs(hits, scope, n, i);
    assert forall|a: int, b: int| 0 <= a < b < now.len() implies text::not_after(
        hits[#[trigger] now[a]].ts@,
        hits[#[trigger] now[b]].ts@,
    ) by {
        assert(now[a] == at[idx[a]] && now[b] == at[idx[b]]);
        assert(0 <= idx[a] < m && 0 <= idx[b] < m);
        assert(text::not_after(keys[idx[a]], keys[idx[b]]));
    }
    if now.contains(i) {
        let k = choose|k: int| 0 <= k < now.len() && now[k] == i;
        assert(0 <= idx[k] < m);
        assert(at[idx[k]] == i);
        assert(at.contains(i));
    }
    if at.contains(i) {
        let k = choose|k: int| 0 <= k < m && at[k] == i;
        assert(idx.contains(k));
        let j = choose|j: int| 0 <= j < idx.len() && idx[j] == k;
        assert(now[j] == i);
    }
}

proof fn hits_in_are_theirs(hits: Seq<MessageHit>, scope: u128, n: int, i: int)
    requires
        0 <= n <= hits.len(),
    ensures
        chats::hits_in(hits, scope, n).contains(i) <==> 0 <= i < n && hits[i].scope == scope,
    decreases n,
{
    if n > 0 {
        hits_in_are_theirs(hits, scope, n - 1, i);
        let before = chats::hits_in(hits, scope, n - 1);
        let now = chats::hits_in(hits, scope, n);
        if now.contains(i) {
            let k = choose|k: int| 0 <= k < now.len() && now[k] == i;
            if k < before.len() {
                assert(before[k] == i);
                assert(before.contains(i));
            }
        }
        if before.contains(i) {
            let k = choose|k: int| 0 <= k < before.len() && before[k] == i;
            assert(now[k] == i);
        }
        if i == n - 1 && hits[i].scope == scope {
            assert(now[now.len() - 1] == i);
        }
    }
}

/// A hit is shown by its number, who wrote it and when, its page where that is known,
/// and the text round the match.
pub proof fn a_hit_is_shown(h: MessageHit, n: nat, loc: Locale)
    ensures
        h.page matches Some(page) ==> chats::hit_text(h, n, loc) == loc.text4(
            "tool.chat_search.hit"@,
            "n"@,
            text::decimal(n),
            "role"@,
            h.role@,
            "date"@,
            chats::date_part(h.ts@),
            "page"@,
            text::decimal(page as nat),
        ) + "\n"@ + h.snippet@,
        h.page is None ==> chats::hit_text(h, n, loc) == loc.text3(
            "tool.chat_search.hit_unpaged"@,
            "n"@,
            text::decimal(n),
            "role"@,
            h.role@,
            "date"@,
            chats::date_part(h.ts@),
        ) + "\n"@ + h.snippet@,
{
}

/// Hits are numbered on through all conversations, each in a paragraph of its own.
pub proof fn one_hit_more_is_shown(
    hits: Seq<MessageHit>,
    at: Seq<int>,
    shown: int,
    n: int,
    loc: Locale,
)
    requires
        0 <= shown,
        0 <= n < at.len(),
    ensures
        chats::hits_shown(hits, at, shown, 0, loc) == Seq::<char>::empty(),
        chats::hits_shown(hits, at, shown, n + 1, loc) == chats::hits_shown(
            hits,
            at,
            shown,
            n,
            loc,
        ) + "\n\n"@ + chats::hit_text(hits[at[n]], (shown + n + 1) as nat, loc),
{
}

/// Conversations come one after the other, each once and only with hits, under its
/// heading; as many of its hits are shown as there is still room for.
pub proof fn one_conversation_more_is_shown(
    refs: Seq<ChatRefView>,
    at: Seq<int>,
    hits: Seq<MessageHit>,
    k: int,
    n: int,
    loc: Locale,
)
    requires
        0 <= n < at.len(),
        k >= 0,
    ensures
        chats::grouped(refs, at, hits, k, 0, loc) == (Seq::<char>::empty(), 0int),
        ({
            let before = chats::grouped(refs, at, hits, k, n, loc);
            let after = chats::grouped(refs, at, hits, k, n + 1, loc);
            let r = refs[at[n]];
            let own = chats::hits_in_order(hits, r.id);
            let room = k - before.1;
            let again = exists|i: int| 0 <= i < n && refs[#[trigger] at[i]].id == r.id;
            let m = if own.len() <= room {
                own.len() as int
            } else {
                room
            };
            &&& room <= 0 || own.len() == 0 || again ==> after == before
            &&& room > 0 && own.len() > 0 && !again ==> after.1 == before.1 + m && after.0
                == before.0 + "\n\n"@ + loc.text3(
                "tool.chat_search.chat"@,
                "title"@,
                chats::label_of(r, loc),
                "id"@,
                chats::address_of(r.id),
                "date"@,
                chats::day_of(r.modified_at),
            ) + chats::hits_shown(hits, own, before.1, m, loc)
        }),
{
}

/// A search has five hits where nothing is said, at least one, and over all chats no
/// more than twenty; a read begins with the first page.
pub proof fn searches_are_bounded(args: JsonView, default: u64)
    ensures
        chats::DEFAULT_TOP_K == 5 && history::DEFAULT_TOP_K == 5 && attachment::DEFAULT_TOP_K == 5,
        chats::MAX_TOP_K == 20,
        args.uint_at("top_k"@) is None ==> search::top_k_of(args, default) == default,
        args.uint_at("top_k"@) matches Some(n) ==> search::top_k_of(args, default) == if n == 0 {
            1
        } else {
            n
        },
        args.uint_at("page"@) is None ==> search::page_of(args) == 1,
        args.uint_at("page"@) matches Some(n) ==> search::page_of(args) == n,
        args.str_at("query"@) matches Some(q) ==> search::query_of(args) == text::trimmed(q),
        args.str_at("query"@) is None ==> search::query_of(args).len() == 0,
{
}

// ---------- history ----------

/// A page of the folded part is the one that is asked for, counted from one, under how
/// many there are; any other number is told that.
pub proof fn a_folded_page_is_read(pages: Seq<String>, page: u64, loc: Locale)
    ensures
        forall|i: int|
            0 <= i < pages.len() && page == i + 1 ==> history::history_page(pages, page, loc)
                == loc.text2(
                "tool.history_read.header"@,
                "page"@,
                text::decimal(page as nat),
                "total"@,
                text::decimal(pages.len()),
            ) + "\n"@ + (#[trigger] pages[i])@,
        page == 0 || page > pages.len() ==> history::history_page(pages, page, loc) == loc.text2(
            "tool.history_read.bad_page"@,
            "page"@,
            text::decimal(page as nat),
            "total"@,
            text::decimal(pages.len()),
        ),
{
}

/// The hits in the folded part are numbered from one, each under its page.
pub proof fn one_folded_hit_more(hits: Seq<HistoryHit>, n: int, loc: Locale)
    requires
        0 <= n < hits.len(),
    ensures
        history::hit_rows(hits, 0, loc) == Seq::<char>::empty(),
        history::hit_rows(hits, n + 1, loc) == history::hit_rows(hits, n, loc) + "\n\n"@
            + loc.text2(
            "tool.history_search.hit"@,
            "n"@,
            text::decimal((n + 1) as nat),
            "page"@,
            text::decimal(hits[n].page as nat),
        ) + "\n"@ + hits[n].snippet@,
{
}

// ---------- attachments ----------

/// The files that answer to a name are those whose own name or source it is, in their
/// order.
pub proof fn one_file_more(files: Seq<Attachment>, name: Seq<char>, n: int)
    requires
        0 <= n < files.len(),
    ensures
        attachment::answering(files, name, 0) == Seq::<int>::empty(),
        attachment::answering(files, name, n + 1) == if files[n].name@ == name
            || files[n].source@ == name {
            attachment::answering(files, name, n).push(n)
        } else {
            attachment::answering(files, name, n)
        },
{
}

/// A file is read where the name that a call gives is its own alone; where it is several
/// files', none is, and their sources are told; where it is no file's, all names are.
pub proof fn a_file_is_read_by_its_name(files: Seq<Attachment>, args: JsonView, loc: Locale)
    ensures
        ({
            let name = match args.str_at("name"@) {
                Some(s) => text::trimmed(s),
                None => Seq::empty(),
            };
            let found = attachment::answering(files, name, files.len() as int);
            let page = match args.uint_at("page"@) {
                Some(n) => n,
                None => 1,
            };
            let r = attachment::read_text(files, args, loc);
            &&& files.len() == 0 ==> r == loc.text("tool.attachment_read.none"@)
            &&& files.len() > 0 && found.len() == 1 ==> r == attachment::attachment_page(
                files[found[0]],
                page,
                loc,
            )
            &&& files.len() > 0 && found.len() > 1 ==> r == loc.text2(
                "tool.attachment_read.ambiguous"@,
                "name"@,
                name,
                "sources"@,
                text::joined(attachment::sources_at(files, found), ", "@),
            )
            &&& files.len() > 0 && found.len() == 0 ==> r == loc.text2(
                "tool.attachment_read.unknown"@,
                "name"@,
                name,
                "names"@,
                text::joined(attachment::names_of(files), ", "@),
            )
        }),
        forall|i: int|
            0 <= i < files.len() ==> #[trigger] attachment::names_of(files)[i] == files[i].name@,
        attachment::names_of(files).len() == files.len(),
{
    let e = Seq::<char>::empty();
    assert(text::trimmed(e) =~= e);
}

/// A page of a file stands under the file's name, its number and how many there are; a
/// number that is no page's is told how many there are.
pub proof fn a_page_of_a_file_is_headed(a: Attachment, page: u64, loc: Locale)
    ensures
        ({
            let total = text::decimal((a.cuts@.len() + 1) as nat);
            let n = text::decimal(page as nat);
            &&& 1 <= page <= a.cuts@.len() + 1 ==> attachment::attachment_page(a, page, loc)
                == loc.text3(
                "tool.attachment_read.header"@,
                "name"@,
                a.name@,
                "page"@,
                n,
                "total"@,
                total,
            ) + "\n"@ + a.page_text(page - 1)
            &&& page == 0 || page > a.cuts@.len() + 1 ==> attachment::attachment_page(a, page, loc)
                == loc.text3(
                "tool.attachment_read.bad_page"@,
                "page"@,
                n,
                "name"@,
                a.name@,
                "total"@,
                total,
            )
        }),
{
}

/// A page begins where it was cut, where the cuts are in order and within the text.
pub proof fn a_page_begins_at_its_cut(a: Attachment, i: int)
    requires
        0 <= i < a.cuts@.len(),
        forall|j: int| 0 <= j < a.cuts@.len() ==> #[trigger] a.cuts@[j] <= a.text@.len(),
        forall|j: int, k: int| 0 <= j < k < a.cuts@.len() ==> a.cuts@[j] <= a.cuts@[k],
    ensures
        a.page_start(i + 1) == a.cuts@[i],
        a.page_start(0) == 0,
        a.page_start(a.cuts@.len() as int + 1) == a.text@.len(),
    decreases i,
{
    if i > 0 {
        a_page_begins_at_its_cut(a, i - 1);
        assert(a.cuts@[i - 1] <= a.cuts@[i]);
    }
    assert(a.page_start(0) == 0);
}

/// Passages are numbered from one, each under its file.
pub proof fn one_passage_more(p: Seq<Passage>, n: int)
    requires
        0 <= n < p.len(),
    ensures
        attachment::passage_rows(p, 0) == Seq::<char>::empty(),
        attachment::passage_rows(p, n + 1) == attachment::passage_rows(p, n) + "\n\n"@
            + text::decimal((n + 1) as nat) + ". ["@ + p[n].source@ + "]\n"@ + p[n].text@,
{
    let rows = attachment::passage_rows(p, n);
    let d = text::decimal((n + 1) as nat);
    assert(rows + ("\n\n"@ + d + ". ["@ + p[n].source@ + "]\n"@ + p[n].text@) =~= rows + "\n\n"@ + d
        + ". ["@ + p[n].source@ + "]\n"@ + p[n].text@);
}

// ---------- identifiers ----------

/// Digits stand for the number they were made of: each is sixteen times its neighbour on
/// the right.
pub proof fn digits_stand_for_their_number(v: nat, n: nat)
    requires
        n > 0,
    ensures
        ids::hex_digits(v, 0) == Seq::<char>::empty(),
        ids::hex_digits(v, n).len() == n,
        ids::hex_digits(v, n).drop_last() == ids::hex_digits(v / 16, (n - 1) as nat),
        ({
            let c = ids::hex_digits(v, n).last();
            let d = (v % 16) as int;
            c as int == if d <= 9 {
                d + 48
            } else {
                d - 10 + 97
            }
        }),
{
    ids::hex_digits_are_hex(v, n);
    let t = ids::hex_digits(v / 16, (n - 1) as nat);
    assert(ids::hex_digits(v, n).drop_last() =~= t);
}

} // verus!
