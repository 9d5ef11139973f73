//! What the operations on texts come to, said of the texts themselves.

use vstd::prelude::*;
use crate::text;

verus! {

// ---------- replacing ----------

/// The pieces one behind the other, with `by` between neighbours.
pub open spec fn woven(pieces: Seq<Seq<char>>, by: Seq<char>) -> Seq<char>
    decreases pieces.len(),
{
    if pieces.len() == 0 {
        Seq::empty()
    } else if pieces.len() == 1 {
        pieces[0]
    } else {
        pieces[0] + by + woven(pieces.skip(1), by)
    }
}

/// `pat` does not stand in `s` at any place before `n`.
pub open spec fn not_before(s: Seq<char>, pat: Seq<char>, n: int) -> bool {
    forall|i: int|
        0 <= i < n && i + pat.len() <= s.len() ==> #[trigger] s.subrange(i, i + pat.len()) != pat
}

/// The pieces are what is left of a text when `pat` is cut out of it wherever it stands,
/// from the left: no piece but the last has `pat` before its end, even with the next
/// `pat` behind it, and the last has none at all.
pub open spec fn is_cut(pieces: Seq<Seq<char>>, pat: Seq<char>) -> bool {
    &&& pieces.len() > 0
    &&& forall|k: int|
        0 <= k < pieces.len() - 1 ==> not_before(
            #[trigger] pieces[k] + pat,
            pat,
            pieces[k].len() as int,
        )
    &&& not_before(pieces.last(), pat, pieces.last().len() as int)
}

proof fn next_is_replaced(
    piece: Seq<char>,
    rest: Seq<char>,
    pat: Seq<char>,
    by: Seq<char>,
)
    requires
        pat.len() > 0,
        not_before(piece + pat, pat, piece.len() as int),
    ensures
        text::replaced(piece + pat + rest, pat, by) == piece + by + text::replaced(rest, pat, by),
        text::occurrences(piece + pat + rest, pat) == 1 + text::occurrences(rest, pat),
    decreases piece.len(),
{
    let s = piece + pat + rest;
    if piece.len() == 0 {
        assert(s.subrange(0, pat.len() as int) =~= pat);
        assert(s.skip(pat.len() as int) =~= rest);
        assert(piece + by + text::replaced(rest, pat, by) =~= by + text::replaced(rest, pat, by));
    } else {
        let p = piece + pat;
        assert(p.subrange(0int, 0int + pat.len()) != pat);
        assert(s.subrange(0, pat.len() as int) =~= p.subrange(0, pat.len() as int));
        let small = piece.skip(1);
        assert forall|i: int|
            0 <= i < small.len() && i + pat.len() <= (small + pat).len() implies #[trigger] (small
            + pat).subrange(i, i + pat.len()) != pat by {
            assert((small + pat).subrange(i, i + pat.len()) =~= p.subrange(
                i + 1,
                i + 1 + pat.len(),
            ));
        }
        next_is_replaced(small, rest, pat, by);
        assert(s.skip(1) =~= small + pat + rest);
        assert(seq![s[0]] + (small + by + text::replaced(rest, pat, by)) =~= piece + by
            + text::replaced(rest, pat, by));
    }
}

proof fn nothing_is_replaced(s: Seq<char>, pat: Seq<char>, by: Seq<char>)
    requires
        pat.len() > 0,
        not_before(s, pat, s.len() as int),
    ensures
        text::replaced(s, pat, by) == s,
        text::occurrences(s, pat) == 0,
    decreases s.len(),
{
    if s.len() > 0 {
        let t = s.skip(1);
        if pat.len() <= s.len() {
            assert(s.subrange(0int, 0int + pat.len()) != pat);
        }
        assert forall|i: int|
            0 <= i < t.len() && i + pat.len() <= t.len() implies #[trigger] t.subrange(
            i,
            i + pat.len(),
        ) != pat by {
            assert(t.subrange(i, i + pat.len()) =~= s.subrange(i + 1, i + 1 + pat.len()));
        }
        nothing_is_replaced(t, pat, by);
        assert(seq![s[0]] + t =~= s);
    }
}

/// Every occurrence is exchanged once, and what is between them stays, also where `by`
/// holds `pat`: pieces with `pat` between them become the same pieces with `by` between
/// them. There are as many occurrences as gaps between the pieces.
pub proof fn every_occurrence_is_exchanged_once(
    pieces: Seq<Seq<char>>,
    pat: Seq<char>,
    by: Seq<char>,
)
    requires
        pat.len() > 0,
        is_cut(pieces, pat),
    ensures
        text::replaced(woven(pieces, pat), pat, by) == woven(pieces, by),
        text::occurrences(woven(pieces, pat), pat) == pieces.len() - 1,
    decreases pieces.len(),
{
    if pieces.len() == 1 {
        nothing_is_replaced(pieces[0], pat, by);
    } else {
        let rest = pieces.skip(1);
        assert(rest.last() == pieces.last());
        assert forall|k: int| 0 <= k < rest.len() - 1 implies not_before(
            #[trigger] rest[k] + pat,
            pat,
            rest[k].len() as int,
        ) by {
            assert(rest[k] == pieces[k + 1]);
        }
        every_occurrence_is_exchanged_once(rest, pat, by);
        next_is_replaced(pieces[0], woven(rest, pat), pat, by);
    }
}

/// Every text can be cut at the occurrences of `pat`.
pub proof fn every_text_can_be_cut(s: Seq<char>, pat: Seq<char>) -> (pieces: Seq<Seq<char>>)
    requires
        pat.len() > 0,
    ensures
        is_cut(pieces, pat),
        woven(pieces, pat) == s,
    decreases s.len(),
{
    if exists|i: int| text::stands_at(s, pat, i) {
        let i = first_place(s, pat, 0);
        let head = s.take(i);
        let tail = s.skip(i + pat.len());
        let rest = every_text_can_be_cut(tail, pat);
        let pieces = seq![head] + rest;
        assert(pieces.skip(1) =~= rest);
        assert(s =~= head + pat + tail);
        assert(pieces.last() == rest.last());
        assert forall|k: int| 0 <= k < pieces.len() - 1 implies not_before(
            #[trigger] pieces[k] + pat,
            pat,
            pieces[k].len() as int,
        ) by {
            if k == 0 {
                let p = head + pat;
                assert forall|j: int|
                    0 <= j < head.len() && j + pat.len() <= p.len() implies #[trigger] p.subrange(
                    j,
                    j + pat.len(),
                ) != pat by {
                    assert(p.subrange(j, j + pat.len()) =~= s.subrange(j, j + pat.len()));
                    assert(!text::stands_at(s, pat, j));
                }
            } else {
                assert(pieces[k] == rest[k - 1]);
            }
        }
        pieces
    } else {
        let pieces = seq![s];
        assert forall|j: int|
            0 <= j < s.len() && j + pat.len() <= s.len() implies #[trigger] s.subrange(
            j,
            j + pat.len(),
        ) != pat by {
            assert(!text::stands_at(s, pat, j));
        }
        pieces
    }
}

proof fn first_place(s: Seq<char>, pat: Seq<char>, from: int) -> (i: int)
    requires
        0 <= from,
        exists|i: int| from <= i && text::stands_at(s, pat, i),
    ensures
        from <= i,
        text::stands_at(s, pat, i),
        forall|j: int| from <= j < i ==> !text::stands_at(s, pat, j),
    decreases s.len() + 1 - from,
{
    if text::stands_at(s, pat, from) {
        from
    } else {
        let k = choose|k: int| from <= k && text::stands_at(s, pat, k);
        assert(from + 1 <= k && text::stands_at(s, pat, k));
        first_place(s, pat, from + 1)
    }
}

/// How long the pieces are with something between them.
pub proof fn woven_lengths(pieces: Seq<Seq<char>>, pat: Seq<char>, by: Seq<char>)
    requires
        pieces.len() > 0,
    ensures
        woven(pieces, by).len() - woven(pieces, pat).len() == (pieces.len() - 1) * (by.len()
            - pat.len()),
    decreases pieces.len(),
{
    let n = pieces.len() as int;
    let d = by.len() - pat.len();
    if n > 1 {
        woven_lengths(pieces.skip(1), pat, by);
        assert(pieces.skip(1).len() - 1 == n - 2);
        assert((n - 1) * d == (n - 2) * d + d) by (nonlinear_arith);
    } else {
        assert((n - 1) * d == 0) by (nonlinear_arith)
            requires
                n == 1,
        ;
    }
}

/// Only the first occurrence is exchanged where only one is to be.
pub proof fn the_first_occurrence_is_exchanged(s: Seq<char>, pat: Seq<char>, by: Seq<char>)
    ensures
        (forall|i: int| !text::stands_at(s, pat, i)) ==> text::replaced_first(s, pat, by) == s,
        forall|i: int|
            #[trigger] text::stands_at(s, pat, i) && (forall|j: int|
                0 <= j < i ==> !text::stands_at(s, pat, j)) ==> text::replaced_first(s, pat, by)
                == s.subrange(0, i) + by + s.subrange(i + pat.len(), s.len() as int),
{
    text::find_is_first(s, pat, 0);
    assert forall|i: int|
        #[trigger] text::stands_at(s, pat, i) && (forall|j: int|
            0 <= j < i ==> !text::stands_at(s, pat, j)) implies text::replaced_first(s, pat, by)
        == s.subrange(0, i) + by + s.subrange(i + pat.len(), s.len() as int) by {
        let f = text::find_from(s, pat, 0);
        assert(f == i);
        assert(s.take(i) =~= s.subrange(0, i));
        assert(s.skip(i + pat.len()) =~= s.subrange(i + pat.len(), s.len() as int));
    }
}

// ---------- margins ----------

/// What is trimmed away is white, on either side; what is left begins and ends with
/// something that is not.
pub proof fn only_margins_are_trimmed(s: Seq<char>) -> (n: (int, int))
    ensures
        0 <= n.0 <= n.1 <= s.len(),
        text::trimmed(s) == s.subrange(n.0, n.1),
        forall|i: int| 0 <= i < n.0 || n.1 <= i < s.len() ==> text::is_white(#[trigger] s[i]),
        n.0 < n.1 ==> !text::is_white(s[n.0]) && !text::is_white(s[n.1 - 1]),
{
    let a = left_margin(s);
    let t = s.skip(a);
    let b = right_margin(t);
    assert(t.take(b) =~= s.subrange(a, a + b));
    assert forall|i: int| 0 <= i < a || a + b <= i < s.len() implies text::is_white(
        #[trigger] s[i],
    ) by {
        if i >= a {
            assert(t[i - a] == s[i]);
        }
    }
    if b > 0 {
        assert(t[0] == s[a]);
        assert(t[b - 1] == s[a + b - 1]);
    }
    (a, a + b)
}

proof fn left_margin(s: Seq<char>) -> (n: int)
    ensures
        0 <= n <= s.len(),
        text::no_left_margin(s) == s.skip(n),
        forall|i: int| 0 <= i < n ==> text::is_white(#[trigger] s[i]),
        n < s.len() ==> !text::is_white(s[n]),
    decreases s.len(),
{
    if s.len() > 0 && text::is_white(s[0]) {
        let n = left_margin(s.drop_first());
        assert(s.drop_first().skip(n) =~= s.skip(n + 1));
        assert forall|i: int| 0 <= i < n + 1 implies text::is_white(#[trigger] s[i]) by {
            if i > 0 {
                assert(s.drop_first()[i - 1] == s[i]);
            }
        }
        n + 1
    } else {
        assert(s.skip(0) =~= s);
        0
    }
}

pub proof fn right_margin(s: Seq<char>) -> (n: int)
    ensures
        0 <= n <= s.len(),
        text::no_right_margin(s) == s.take(n),
        forall|i: int| n <= i < s.len() ==> text::is_white(#[trigger] s[i]),
        n > 0 ==> !text::is_white(s[n - 1]),
    decreases s.len(),
{
    if s.len() > 0 && text::is_white(s.last()) {
        let t = s.drop_last();
        let n = right_margin(t);
        assert(t.take(n) =~= s.take(n));
        assert forall|i: int| n <= i < s.len() implies text::is_white(#[trigger] s[i]) by {
            if i < t.len() {
                assert(t[i] == s[i]);
            }
        }
        if n > 0 {
            assert(t[n - 1] == s[n - 1]);
        }
        n
    } else {
        assert(s.take(s.len() as int) =~= s);
        s.len() as int
    }
}

/// A text is trimmed to nothing only where it is blank.
pub proof fn only_blank_texts_vanish(s: Seq<char>)
    ensures
        text::trimmed(s).len() == 0 <==> (forall|i: int|
            0 <= i < s.len() ==> text::is_white(#[trigger] s[i])),
{
    let n = only_margins_are_trimmed(s);
    if n.0 < n.1 {
        assert(!text::is_white(s[n.0]));
    }
}

/// A text that neither begins nor ends with white space stays as it is, whatever margins
/// are put round it.
pub proof fn margins_do_not_matter(a: Seq<char>, s: Seq<char>, b: Seq<char>)
    requires
        forall|i: int| 0 <= i < a.len() ==> text::is_white(#[trigger] a[i]),
        forall|i: int| 0 <= i < b.len() ==> text::is_white(#[trigger] b[i]),
        s.len() > 0 && !text::is_white(s[0]) && !text::is_white(s.last()),
    ensures
        text::trimmed(a + s + b) == s,
{
    let w = a + s + b;
    let n = only_margins_are_trimmed(w);
    assert(w[a.len() as int] == s[0]);
    assert(w[a.len() + s.len() - 1] == s.last());
    assert(n.0 <= a.len());
    if n.0 < a.len() {
        assert(w[n.0] == a[n.0]);
    }
    if n.1 > a.len() + s.len() {
        assert(w[n.1 - 1] == b[n.1 - 1 - a.len() - s.len()]);
    }
    assert(w.subrange(n.0, n.1) =~= s);
}

/// Of the ASCII characters the blank, the tabs, the line ends and the form feed are
/// white.
pub proof fn ascii_white_space(c: char)
    requires
        c <= '\u{7f}',
    ensures
        text::is_white(c) <==> c == ' ' || c == '\t' || c == '\n' || c == '\r' || c == '\u{b}' || c
            == '\u{c}',
{
}

// ---------- letter case ----------

/// Lowering changes `A` to `Z` and nothing else: each place keeps its character, or has
/// a capital's small letter.
pub proof fn only_capitals_are_lowered(s: Seq<char>)
    ensures
        text::ascii_lowered(s).len() == s.len(),
        forall|i: int|
            0 <= i < s.len() ==> {
                let c = #[trigger] text::ascii_lowered(s)[i];
                if 'A' <= s[i] <= 'Z' {
                    c as int == s[i] as int + ('a' as int - 'A' as int) && 'a' <= c <= 'z'
                } else {
                    c == s[i]
                }
            },
{
}

// ---------- parts ----------

/// Splitting loses nothing: the parts with the separator between them are the text.
pub proof fn the_parts_make_the_text(s: Seq<char>, sep: char)
    ensures
        text::split(s, sep).len() >= 1,
        text::joined(text::split(s, sep), seq![sep]) == s,
        forall|k: int|
            0 <= k < text::split(s, sep).len() ==> !(#[trigger] text::split(s, sep)[k]).contains(
                sep,
            ),
    decreases s.len(),
{
    let parts = text::split(s, sep);
    if s.len() == 0 {
        assert(parts.len() == 1);
        assert(text::joined(parts, seq![sep]) =~= s);
    } else {
        let t = s.drop_last();
        the_parts_make_the_text(t, sep);
        let before = text::split(t, sep);
        if s.last() == sep {
            assert(parts.drop_last() =~= before);
            assert(text::joined(parts, seq![sep]) =~= s);
        } else {
            assert(parts.drop_last() =~= before.drop_last());
            let sp = seq![sep];
            if before.len() == 1 {
                assert(text::joined(parts, sp) =~= s);
            } else {
                let head = text::joined(before.drop_last(), sp) + sp;
                assert(t == head + before.last());
                assert(text::joined(parts, sp) == head + before.last().push(s.last()));
                assert(head + before.last().push(s.last()) =~= t.push(s.last()));
                assert(t.push(s.last()) =~= s);
            }
            assert(!before.last().push(s.last()).contains(sep)) by {
                let p = before.last().push(s.last());
                assert(!before[before.len() - 1].contains(sep));
                if p.contains(sep) {
                    let i = choose|i: int| 0 <= i < p.len() && p[i] == sep;
                    assert(before.last()[i] == sep);
                }
            }
        }
        assert forall|k: int| 0 <= k < parts.len() implies !(#[trigger] parts[k]).contains(sep) by {
            if k < before.len() - 1 || (s.last() == sep && k < before.len()) {
                assert(parts[k] == before[k]);
            }
        }
    }
}

/// Joining is done part by part: nothing of nothing, a part of itself, and with one part
/// more the separator and that part behind the rest.
pub proof fn parts_are_joined_in_order(parts: Seq<Seq<char>>, part: Seq<char>, sep: Seq<char>)
    ensures
        text::joined(Seq::empty(), sep) == Seq::<char>::empty(),
        text::joined(seq![part], sep) == part,
        parts.len() > 0 ==> text::joined(parts.push(part), sep) == text::joined(parts, sep) + sep
            + part,
{
    assert(parts.push(part).drop_last() =~= parts);
}

/// A text of whole lines is read back line by line, whichever way each line ends.
pub proof fn lines_are_read_back(before: Seq<char>, line: Seq<char>)
    requires
        !line.contains('\n'),
        line.len() == 0 || line.last() != '\r',
        before.len() == 0 || before.last() == '\n',
    ensures
        text::lines_of(before + line.push('\n')) == text::lines_of(before).push(line),
        text::lines_of(before + line.push('\r').push('\n')) == text::lines_of(before).push(line),
        line.len() > 0 ==> text::lines_of(before + line) == text::lines_of(before).push(line),
        text::lines_of(Seq::empty()) == Seq::<Seq<char>>::empty(),
{
    let e = Seq::<char>::empty();
    assert(text::split(e, '\n') =~= seq![e]);
    assert(text::lines_of(e) =~= Seq::<Seq<char>>::empty());
    text::split_without_separator(line, '\n');
    let cr = line.push('\r');
    assert(!cr.contains('\n')) by {
        if cr.contains('\n') {
            let i = choose|i: int| 0 <= i < cr.len() && cr[i] == '\n';
            assert(line[i] == '\n');
        }
    }
    text::split_without_separator(cr, '\n');
    let old_parts = text::split(before, '\n');
    text::split_is_not_empty(before, '\n');
    let head = if before.len() == 0 {
        Seq::<Seq<char>>::empty()
    } else {
        old_parts.drop_last()
    };
    if before.len() > 0 {
        let b = before.drop_last();
        assert(before =~= b.push('\n') + e);
        text::split_at_separator(b, '\n', e);
        assert(old_parts.last() =~= e);
        assert(old_parts.drop_last() =~= text::split(b, '\n'));
        text::split_at_separator(b, '\n', line);
        assert(before + line =~= b.push('\n') + line);
        text::split_at_separator(b, '\n', cr);
        assert(before + cr =~= b.push('\n') + cr);
    } else {
        assert(before =~= e);
        assert(before + line =~= line);
        assert(before + cr =~= cr);
        assert(head + seq![line] =~= seq![line]);
        assert(head + seq![cr] =~= seq![cr]);
    }
    assert(text::split(before + line, '\n') =~= head + seq![line]);
    assert(text::split(before + cr, '\n') =~= head + seq![cr]);
    text::split_at_separator(before + line, '\n', e);
    text::split_at_separator(before + cr, '\n', e);
    let one = before + line.push('\n');
    let two = before + cr.push('\n');
    assert(one =~= (before + line).push('\n') + e);
    assert(two =~= (before + cr).push('\n') + e);
    let p1 = text::split(one, '\n');
    let p2 = text::split(two, '\n');
    assert(p1 =~= head + seq![line] + seq![e]);
    assert(p2 =~= head + seq![cr] + seq![e]);
    assert(p1.drop_last() =~= head + seq![line]);
    assert(p2.drop_last() =~= head + seq![cr]);
    assert(cr.drop_last() =~= line);
    let f = |p: Seq<char>| text::no_return(p);
    assert(text::lines_of(before) =~= head.map_values(f));
    assert((head + seq![line]).map_values(f) =~= head.map_values(f).push(line));
    assert((head + seq![cr]).map_values(f) =~= head.map_values(f).push(line));
    if line.len() > 0 {
        let p3 = text::split(before + line, '\n');
        assert(p3.drop_last() =~= head);
    }
}

// ---------- beginnings and words ----------

/// A beginning is as long as asked for, or all there is.
pub proof fn a_beginning_begins_the_text(s: Seq<char>, n: int)
    requires
        n >= 0,
    ensures
        text::head_of(s, n).is_prefix_of(s),
        text::head_of(s, n).len() == if s.len() < n {
            s.len() as int
        } else {
            n
        },
{
}

/// No word has white space in it or is empty.
pub proof fn words_are_not_white(s: Seq<char>)
    ensures
        forall|k: int|
            0 <= k < text::words_of(s).len() ==> (#[trigger] text::words_of(s)[k]).len() > 0,
        forall|k: int, i: int|
            0 <= k < text::words_of(s).len() && 0 <= i < text::words_of(s)[k].len()
                ==> !text::is_white(#[trigger] text::words_of(s)[k][i]),
{
    open_words_are_not_white(s);
}

proof fn open_words_are_not_white(s: Seq<char>)
    ensures
        forall|k: int|
            0 <= k < text::open_words(s).0.len() ==> (#[trigger] text::open_words(s).0[k]).len()
                > 0,
        forall|k: int, i: int|
            0 <= k < text::open_words(s).0.len() && 0 <= i < text::open_words(s).0[k].len()
                ==> !text::is_white(#[trigger] text::open_words(s).0[k][i]),
        forall|i: int|
            0 <= i < text::open_words(s).1.len() ==> !text::is_white(
                #[trigger] text::open_words(s).1[i],
            ),
    decreases s.len(),
{
    if s.len() > 0 {
        open_words_are_not_white(s.drop_last());
        let b = text::open_words(s.drop_last());
        let o = text::open_words(s);
        assert forall|k: int| 0 <= k < o.0.len() implies (#[trigger] o.0[k]).len() > 0 by {
            if k < b.0.len() {
                assert(o.0[k] == b.0[k]);
            }
        }
        assert forall|k: int, i: int|
            0 <= k < o.0.len() && 0 <= i < o.0[k].len() implies !text::is_white(
            #[trigger] o.0[k][i],
        ) by {
            if k < b.0.len() {
                assert(o.0[k] == b.0[k]);
                assert(!text::is_white(b.0[k][i]));
            } else {
                assert(!text::is_white(b.1[i]));
            }
        }
    }
}

/// The words come in their order: with white space and one word more behind a text, the
/// words are those of the text and that one. White space by itself adds none.
pub proof fn one_word_more(s: Seq<char>, c: char, w: Seq<char>)
    requires
        text::is_white(c),
        forall|i: int| 0 <= i < w.len() ==> !text::is_white(#[trigger] w[i]),
    ensures
        text::words_of(Seq::empty()) == Seq::<Seq<char>>::empty(),
        text::words_of(s.push(c)) == text::words_of(s),
        w.len() > 0 ==> text::words_of(s.push(c) + w) == text::words_of(s).push(w),
        w.len() > 0 ==> text::words_of(w) == seq![w],
{
    assert(s.push(c).drop_last() =~= s);
    let o = text::open_words(s.push(c));
    assert(o.1.len() == 0);
    assert(o.0 == text::words_of(s));
    word_stays_open(s.push(c), w);
    word_stays_open(Seq::empty(), w);
    assert(Seq::<char>::empty() + w =~= w);
    if w.len() > 0 {
        assert(Seq::<Seq<char>>::empty().push(w) =~= seq![w]);
        assert(o.1 + w =~= w);
    }
}

proof fn word_stays_open(s: Seq<char>, w: Seq<char>)
    requires
        text::open_words(s).1.len() == 0,
        forall|i: int| 0 <= i < w.len() ==> !text::is_white(#[trigger] w[i]),
    ensures
        text::open_words(s + w) == (text::open_words(s).0, w),
    decreases w.len(),
{
    if w.len() == 0 {
        assert(s + w =~= s);
        assert(text::open_words(s).1 =~= w);
    } else {
        let u = w.drop_last();
        assert forall|i: int| 0 <= i < u.len() implies !text::is_white(#[trigger] u[i]) by {
            assert(u[i] == w[i]);
        }
        word_stays_open(s, u);
        assert((s + w).drop_last() =~= s + u);
        assert((s + w).last() == w[w.len() - 1]);
        assert(u.push(w.last()) =~= w);
    }
}

// ---------- numbers ----------

/// A number that was written is read back, and has no idle zero before it.
pub proof fn a_written_number_is_read_back(n: u64)
    ensures
        text::uint_of(text::decimal(n as nat)) == Some(n),
        n > 0 ==> text::decimal(n as nat)[0] != '0',
{
    text::decimal_is_digits(n as nat);
    let d = text::decimal(n as nat);
    assert(text::is_digit(d[0]));
    assert(d[0] != '+');
    no_idle_zero(n as nat);
}

proof fn no_idle_zero(n: nat)
    ensures
        n > 0 ==> text::decimal(n)[0] != '0',
        text::decimal(n).len() > 0,
    decreases n,
{
    if n >= 10 {
        no_idle_zero(n / 10);
        assert(text::decimal(n)[0] == text::decimal(n / 10)[0]);
    } else if n > 0 {
        assert(text::digit(n) == (('0' as u32) + n) as char);
    }
}

/// Aligning puts blanks before a text and nothing else, up to the width.
pub proof fn aligning_adds_blanks_before(s: Seq<char>, width: nat)
    ensures
        ({
            let r = text::right_aligned(s, width);
            &&& r.len() == if s.len() < width {
                width
            } else {
                s.len()
            }
            &&& r.skip(r.len() - s.len()) == s
            &&& forall|i: int| 0 <= i < r.len() - s.len() ==> #[trigger] r[i] == ' '
        }),
{
    let r = text::right_aligned(s, width);
    assert(r.skip(r.len() - s.len()) =~= s);
}

/// The ten digits are digits, each with its value, and nothing else is one.
pub proof fn the_ten_digits(c: char)
    ensures
        text::is_digit(c) <==> c == '0' || c == '1' || c == '2' || c == '3' || c == '4' || c == '5'
            || c == '6' || c == '7' || c == '8' || c == '9',
        text::digit_value('0') == 0 && text::digit_value('5') == 5 && text::digit_value('9') == 9,
{
}

/// In an ordered list none comes before one that is not after it.
pub proof fn an_ordered_list_rises(s: Seq<Seq<char>>, i: int, j: int)
    requires
        0 <= i < j < s.len(),
    ensures
        text::is_ordered(s) ==> text::not_after(s[i], s[j]),
        text::ordered(s).len() == s.len(),
        text::not_after(text::ordered(s)[i], text::ordered(s)[j]),
{
    text::ordered_is_a_permutation(s);
    s.to_multiset_ensures();
    text::ordered(s).to_multiset_ensures();
}

} // verus!
