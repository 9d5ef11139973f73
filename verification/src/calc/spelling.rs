//! How tokens are spelled, and that a text of them is read back.

use vstd::prelude::*;
use crate::calc::lex;
use crate::calc::lex::{CalcErrorView, TokenView};
use crate::text;

verus! {

/// `d` is a decimal digit.
pub open spec fn is_figure(d: char) -> bool {
    d == '0' || d == '1' || d == '2' || d == '3' || d == '4' || d == '5' || d == '6' || d == '7'
        || d == '8' || d == '9'
}

/// A numeral whose part before an exponent has `m` characters: figures with one point at
/// most, and at least one figure; then nothing, or an `e` with or without a sign and at
/// least one figure.
pub open spec fn is_numeral_with(s: Seq<char>, m: int) -> bool {
    &&& 0 < m <= s.len()
    &&& forall|i: int| 0 <= i < m ==> is_figure(#[trigger] s[i]) || s[i] == '.'
    &&& exists|i: int| 0 <= i < m && is_figure(#[trigger] s[i])
    &&& forall|i: int, j: int|
        0 <= i < j < m ==> !(#[trigger] s[i] == '.' && #[trigger] s[j] == '.')
    &&& m == s.len() || (s[m] == 'e' || s[m] == 'E') && exponent_follows(s, m + 1)
}

/// From `k` on: a sign or none, and then figures to the end.
pub open spec fn exponent_follows(s: Seq<char>, k: int) -> bool {
    let from = if k < s.len() && (s[k] == '+' || s[k] == '-') {
        k + 1
    } else {
        k
    };
    from < s.len() && forall|i: int| from <= i < s.len() ==> is_figure(#[trigger] s[i])
}

pub open spec fn is_numeral(s: Seq<char>) -> bool {
    exists|m: int| is_numeral_with(s, m)
}

/// A word that can be a name: it begins with a letter or a low line and goes on with
/// letters, numbers and low lines. (Its first character is none that a number or a sign
/// begins with, nor white.)
pub open spec fn is_name(w: Seq<char>) -> bool {
    &&& w.len() > 0
    &&& lex::is_letter(w[0]) || w[0] == '_'
    &&& forall|i: int| 0 <= i < w.len() ==> lex::is_letter_or_number(#[trigger] w[i]) || w[i] == '_'
    &&& !is_figure(w[0]) && w[0] != '.' && w[0] != '+' && w[0] != '-' && w[0] != '*' && w[0] != '/'
        && w[0] != '%' && w[0] != '^' && w[0] != '(' && w[0] != ')' && w[0] != ','
    &&& !text::is_white(w[0])
}

/// The word is a way to write the token. Names do not depend on letter case.
pub open spec fn spells(w: Seq<char>, t: TokenView) -> bool {
    match t {
        TokenView::Number(s) => w == s && is_numeral(w),
        TokenView::Ident(name) => is_name(w) && name == text::lowercase(w),
        TokenView::Plus => w == seq!['+'],
        TokenView::Minus => w == seq!['-'],
        TokenView::Star => w == seq!['*'],
        TokenView::Slash => w == seq!['/'],
        TokenView::Percent => w == seq!['%'],
        TokenView::Caret => w == seq!['^'],
        TokenView::LParen => w == seq!['('],
        TokenView::RParen => w == seq![')'],
        TokenView::Comma => w == seq![','],
    }
}

/// The words one behind the other, with a blank behind each.
pub open spec fn spaced(words: Seq<Seq<char>>) -> Seq<char>
    decreases words.len(),
{
    if words.len() == 0 {
        Seq::empty()
    } else {
        words[0] + seq![' '] + spaced(words.skip(1))
    }
}

proof fn mantissa_ends(s: Seq<char>, i: int, end: int)
    requires
        0 <= i <= end < s.len(),
        forall|k: int| i <= k < end ==> lex::in_mantissa(#[trigger] s[k]),
        !lex::in_mantissa(s[end]),
    ensures
        lex::mantissa_end(s, i) == end,
    decreases end - i,
{
    if i < end {
        assert(lex::in_mantissa(s[i]));
        mantissa_ends(s, i + 1, end);
    }
}

proof fn digits_end_there(s: Seq<char>, i: int, end: int)
    requires
        0 <= i <= end < s.len(),
        forall|k: int| i <= k < end ==> text::is_digit(#[trigger] s[k]),
        !text::is_digit(s[end]),
    ensures
        lex::digits_end(s, i) == end,
    decreases end - i,
{
    if i < end {
        assert(text::is_digit(s[i]));
        digits_end_there(s, i + 1, end);
    }
}

proof fn name_ends(s: Seq<char>, i: int, end: int)
    requires
        0 <= i <= end < s.len(),
        forall|k: int| i <= k < end ==> lex::in_name(#[trigger] s[k]),
        !lex::in_name(s[end]),
    ensures
        lex::name_end(s, i) == end,
    decreases end - i,
{
    if i < end {
        assert(lex::in_name(s[i]));
        name_ends(s, i + 1, end);
    }
}

proof fn points_are_few(s: Seq<char>, i: int, n: int)
    requires
        0 <= i,
        0 <= n,
        i + n <= s.len(),
        forall|a: int, b: int|
            i <= a < b < i + n ==> !(#[trigger] s[a] == '.' && #[trigger] s[b] == '.'),
    ensures
        lex::points(s, i, n) <= 1,
        (forall|a: int| i <= a < i + n ==> #[trigger] s[a] != '.') ==> lex::points(s, i, n) == 0,
    decreases n,
{
    if n > 0 {
        points_are_few(s, i, n - 1);
        if s[i + n - 1] == '.' {
            assert forall|a: int| i <= a < i + n - 1 implies #[trigger] s[a] != '.' by {
                assert(!(s[a] == '.' && s[i + n - 1] == '.'));
            }
        }
    }
}

proof fn points_are_fewer(s: Seq<char>, i: int, n: int, at: int)
    requires
        0 <= i,
        i + n <= s.len(),
        i <= at < i + n,
        s[at] != '.',
    ensures
        lex::points(s, i, n) < n,
    decreases n,
{
    if at < i + n - 1 {
        points_are_fewer(s, i, n - 1, at);
    } else {
        points_are_at_most(s, i, n - 1);
    }
}

proof fn points_are_at_most(s: Seq<char>, i: int, n: int)
    requires
        n >= 0,
    ensures
        lex::points(s, i, n) <= n,
    decreases n,
{
    if n > 0 {
        points_are_at_most(s, i, n - 1);
    }
}

/// The word stands at `i`, with a blank behind it.
spec fn stands_apart(s: Seq<char>, w: Seq<char>, i: int) -> bool {
    0 <= i && i + w.len() < s.len() && s[i + w.len()] == ' ' && forall|k: int|
        0 <= k < w.len() ==> s[i + k] == #[trigger] w[k]
}

proof fn a_numeral_is_read(s: Seq<char>, w: Seq<char>, i: int)
    requires
        stands_apart(s, w, i),
        is_numeral(w),
    ensures
        lex::piece(s, i) == lex::Piece::Token(TokenView::Number(w), i + w.len()),
{
    let m = choose|m: int| is_numeral_with(w, m);
    let n = w.len() as int;
    assert(s.subrange(i, i + n) =~= w) by {
        assert forall|k: int| 0 <= k < n implies s.subrange(i, i + n)[k] == w[k] by {
            assert(s[i + k] == w[k]);
        }
    }
    assert forall|k: int| i <= k < i + m implies lex::in_mantissa(#[trigger] s[k]) by {
        assert(s[i + (k - i)] == w[k - i]);
        assert(is_figure(w[k - i]) || w[k - i] == '.');
    }
    if m < n {
        assert(s[i + m] == w[m]);
    }
    mantissa_ends(s, i, i + m);
    assert(s[i] == w[0]) by {
        assert(s[i + 0] == w[0]);
    }
    assert(is_figure(w[0]) || w[0] == '.');
    assert forall|a: int, b: int| i <= a < b < i + m implies !(#[trigger] s[a] == '.'
        && #[trigger] s[b] == '.') by {
        assert(s[i + (a - i)] == w[a - i]);
        assert(s[i + (b - i)] == w[b - i]);
    }
    points_are_few(s, i, m);
    let at = choose|at: int| 0 <= at < m && is_figure(#[trigger] w[at]);
    assert(s[i + at] == w[at]);
    points_are_fewer(s, i, m, i + at);
    if m < n {
        let from = if m + 1 < n && (w[m + 1] == '+' || w[m + 1] == '-') {
            m + 2
        } else {
            m + 1
        };
        assert(s[i + (m + 1)] == w[m + 1]);
        assert forall|k: int| i + from <= k < i + n implies text::is_digit(#[trigger] s[k]) by {
            assert(s[i + (k - i)] == w[k - i]);
            assert(is_figure(w[k - i]));
        }
        digits_end_there(s, i + from, i + n);
        assert(text::is_digit(s[i + n - 1]));
    }
}

proof fn a_name_is_read(s: Seq<char>, w: Seq<char>, i: int)
    requires
        stands_apart(s, w, i),
        is_name(w),
        !lex::is_letter_or_number(' '),
    ensures
        lex::piece(s, i) == lex::Piece::Token(
            TokenView::Ident(text::lowercase(w)),
            i + w.len(),
        ),
{
    let n = w.len() as int;
    assert(s.subrange(i, i + n) =~= w) by {
        assert forall|k: int| 0 <= k < n implies s.subrange(i, i + n)[k] == w[k] by {
            assert(s[i + k] == w[k]);
        }
    }
    assert(s[i] == w[0]) by {
        assert(s[i + 0] == w[0]);
    }
    assert forall|k: int| i <= k < i + n implies lex::in_name(#[trigger] s[k]) by {
        assert(s[i + (k - i)] == w[k - i]);
    }
    name_ends(s, i, i + n);
}

proof fn a_word_is_read(s: Seq<char>, w: Seq<char>, t: TokenView, i: int)
    requires
        stands_apart(s, w, i),
        spells(w, t),
        !lex::is_letter_or_number(' '),
    ensures
        lex::piece(s, i) == lex::Piece::Token(t, i + w.len()),
        w.len() > 0,
{
    match t {
        TokenView::Number(_) => {
            a_numeral_is_read(s, w, i);
        },
        TokenView::Ident(_) => {
            a_name_is_read(s, w, i);
        },
        _ => {
            assert(s[i + 0] == w[0]);
        },
    }
}

proof fn words_are_read_from(
    s: Seq<char>,
    i: int,
    words: Seq<Seq<char>>,
    t: Seq<TokenView>,
    before: Seq<TokenView>,
)
    requires
        0 <= i <= s.len(),
        s.skip(i) == spaced(words),
        words.len() == t.len(),
        forall|k: int| 0 <= k < words.len() ==> spells(#[trigger] words[k], t[k]),
        !lex::is_letter_or_number(' '),
    ensures
        lex::tokens_from(s, i, before) == Ok::<Seq<TokenView>, CalcErrorView>(before + t),
    decreases words.len(),
{
    if words.len() == 0 {
        assert(s.skip(i).len() == 0);
        assert(before + t =~= before);
    } else {
        let w = words[0];
        let n = w.len() as int;
        let rest = words.skip(1);
        let all = spaced(words);
        assert(spells(words[0], t[0]));
        assert(all == w + seq![' '] + spaced(rest));
        assert(s.len() == i + all.len());
        assert forall|k: int| 0 <= k < n implies s[i + k] == #[trigger] w[k] by {
            assert(s.skip(i)[k] == all[k]);
            assert(all[k] == w[k]);
        }
        assert(s.skip(i)[n] == ' ');
        a_word_is_read(s, w, t[0], i);
        assert(s.skip(i + n + 1) =~= spaced(rest)) by {
            assert(s.skip(i + n + 1) =~= s.skip(i).skip(n + 1));
            assert(all.skip(n + 1) =~= spaced(rest));
        }
        assert forall|k: int| 0 <= k < rest.len() implies spells(
            #[trigger] rest[k],
            t.skip(1)[k],
        ) by {
            assert(spells(words[k + 1], t[k + 1]));
        }
        words_are_read_from(s, i + n + 1, rest, t.skip(1), before.push(t[0]));
        assert(before.push(t[0]) + t.skip(1) =~= before + t);
        let now = before.push(t[0]);
        assert(lex::piece(s, i + n) == lex::Piece::Blank(i + n + 1));
        assert(lex::tokens_from(s, i + n, now) == lex::tokens_from(s, i + n + 1, now));
        assert(lex::tokens_from(s, i, before) == lex::tokens_from(s, i + n, now));
    }
}

/// What is spelled is read back: words with blanks between them are the tokens that they
/// spell, in their order. (That a blank is no letter is a fact of Unicode's tables.)
pub proof fn spelled_tokens_are_read_back(words: Seq<Seq<char>>, t: Seq<TokenView>)
    requires
        words.len() == t.len(),
        forall|k: int| 0 <= k < words.len() ==> spells(#[trigger] words[k], t[k]),
        !lex::is_letter_or_number(' '),
    ensures
        lex::tokens_of(spaced(words)) == Ok::<Seq<TokenView>, CalcErrorView>(t),
{
    let s = spaced(words);
    assert(s.skip(0) =~= s);
    words_are_read_from(s, 0, words, t, Seq::empty());
    assert(Seq::<TokenView>::empty() + t =~= t);
}

// ---------- what is no number ----------

proof fn all_before_the_end(s: Seq<char>, i: int)
    requires
        0 <= i <= s.len(),
    ensures
        i <= lex::mantissa_end(s, i) <= s.len(),
        forall|k: int| i <= k < lex::mantissa_end(s, i) ==> lex::in_mantissa(#[trigger] s[k]),
        i <= lex::digits_end(s, i) <= s.len(),
        forall|k: int| i <= k < lex::digits_end(s, i) ==> text::is_digit(#[trigger] s[k]),
    decreases s.len() - i,
{
    if i < s.len() {
        all_before_the_end(s, i + 1);
    }
}

proof fn two_points_are_two(s: Seq<char>, i: int, n: int, a: int, b: int)
    requires
        0 <= i <= a < b < i + n,
        i + n <= s.len(),
        s[a] == '.' && s[b] == '.',
    ensures
        lex::points(s, i, n) >= 2,
    decreases n,
{
    if b < i + n - 1 {
        two_points_are_two(s, i, n - 1, a, b);
    } else {
        a_point_is_one(s, i, n - 1, a);
    }
}

proof fn a_point_is_one(s: Seq<char>, i: int, n: int, a: int)
    requires
        0 <= i <= a < i + n,
        i + n <= s.len(),
        s[a] == '.',
    ensures
        lex::points(s, i, n) >= 1,
    decreases n,
{
    points_are_some(s, i, n - 1);
    if a < i + n - 1 {
        a_point_is_one(s, i, n - 1, a);
    }
}

proof fn points_are_some(s: Seq<char>, i: int, n: int)
    ensures
        lex::points(s, i, n) >= 0,
    decreases n,
{
    if n > 0 {
        points_are_some(s, i, n - 1);
    }
}

proof fn nothing_but_points(s: Seq<char>, i: int, n: int)
    requires
        0 <= n,
        forall|k: int| i <= k < i + n ==> #[trigger] s[k] == '.',
    ensures
        lex::points(s, i, n) == n,
    decreases n,
{
    if n > 0 {
        assert(s[i + n - 1] == '.');
        nothing_but_points(s, i, n - 1);
    }
}

/// What is read as a number is a numeral, and it is what stands there.
pub proof fn only_numerals_are_numbers(s: Seq<char>, i: int, w: Seq<char>, next: int)
    requires
        0 <= i < s.len(),
        lex::piece(s, i) == lex::Piece::Token(TokenView::Number(w), next),
    ensures
        i < next <= s.len(),
        w == s.subrange(i, next),
        is_numeral(w),
{
    let m = lex::mantissa_end(s, i);
    let end = lex::number_end(s, m);
    all_before_the_end(s, i);
    assert(lex::mantissa_end(s, i + 1) == m);
    all_before_the_end(s, i + 1);
    let n = m - i;
    let signed = m + 1 < s.len() && (s[m + 1] == '+' || s[m + 1] == '-');
    let k = if signed {
        m + 2
    } else {
        m + 1
    };
    if m < s.len() && (s[m] == 'e' || s[m] == 'E') {
        all_before_the_end(s, k);
        assert(end == m || text::is_digit(s[end - 1]));
        assert(end > k) by {
            if end == k {
                assert(s[end - 1] == s[m] || s[end - 1] == s[m + 1]);
            }
        }
    } else {
        assert(end == m);
    }
    assert(w =~= s.subrange(i, end));
    assert forall|j: int| 0 <= j < n implies is_figure(#[trigger] w[j]) || w[j] == '.' by {
        assert(w[j] == s[i + j]);
        assert(lex::in_mantissa(s[i + j]));
    }
    assert(exists|j: int| 0 <= j < n && is_figure(#[trigger] w[j])) by {
        if forall|j: int| i <= j < i + n ==> #[trigger] s[j] == '.' {
            nothing_but_points(s, i, n);
        } else {
            let j = choose|j: int| i <= j < i + n && #[trigger] s[j] != '.';
            assert(lex::in_mantissa(s[j]));
            assert(is_figure(w[j - i]));
        }
    }
    assert forall|a: int, b: int| 0 <= a < b < n implies !(#[trigger] w[a] == '.'
        && #[trigger] w[b] == '.') by {
        assert(w[a] == s[i + a] && w[b] == s[i + b]);
        if w[a] == '.' && w[b] == '.' {
            two_points_are_two(s, i, n, i + a, i + b);
        }
    }
    if end > m {
        assert(w[n] == s[m]);
        if m + 1 < end {
            assert(w[n + 1] == s[m + 1]);
        }
        assert forall|j: int| k - i <= j < w.len() implies is_figure(#[trigger] w[j]) by {
            assert(w[j] == s[i + j]);
            assert(text::is_digit(s[i + j]));
        }
        assert(exponent_follows(w, n + 1));
    }
    assert(is_numeral_with(w, n));
}

proof fn name_ends_within(s: Seq<char>, i: int)
    requires
        0 <= i <= s.len(),
    ensures
        i <= lex::name_end(s, i) <= s.len(),
        i < s.len() && lex::in_name(s[i]) ==> i < lex::name_end(s, i),
    decreases s.len() - i,
{
    if i < s.len() {
        name_ends_within(s, i + 1);
    }
}

/// A letter may go on with a name that it begins.
spec fn letters_go_on() -> bool {
    forall|c: char| #[trigger] lex::is_letter(c) ==> lex::is_letter_or_number(c)
}

proof fn numbers_from(s: Seq<char>, i: int, before: Seq<TokenView>, t: Seq<TokenView>)
    requires
        letters_go_on(),
        0 <= i <= s.len(),
        lex::tokens_from(s, i, before) == Ok::<Seq<TokenView>, CalcErrorView>(t),
        numbers_are_numerals(before),
    ensures
        numbers_are_numerals(t),
    decreases s.len() - i,
{
    if i < s.len() {
        match lex::piece(s, i) {
            lex::Piece::Blank(next) => {
                numbers_from(s, next, before, t);
            },
            lex::Piece::Token(x, next) => {
                if let TokenView::Number(w) = x {
                    only_numerals_are_numbers(s, i, w, next);
                }
                name_ends_within(s, i);
                let now = before.push(x);
                assert forall|k: int| 0 <= k < now.len() && (#[trigger] now[k]) is Number implies
                    is_numeral(now[k]->Number_0) by {
                    if k < before.len() {
                        assert(before[k] == now[k]);
                    }
                }
                numbers_from(s, next, now, t);
            },
            lex::Piece::Wrong(_) => {},
        }
    }
}

spec fn numbers_are_numerals(t: Seq<TokenView>) -> bool {
    forall|k: int| 0 <= k < t.len() && (#[trigger] t[k]) is Number ==> is_numeral(t[k]->Number_0)
}

/// Every number among the tokens of an expression is a numeral: two points, no figure, or
/// an exponent without one are never passed on.
pub proof fn every_number_is_a_numeral(s: Seq<char>, t: Seq<TokenView>, k: int, w: Seq<char>)
    requires
        forall|c: char| #[trigger] lex::is_letter(c) ==> lex::is_letter_or_number(c),
        lex::tokens_of(s) == Ok::<Seq<TokenView>, CalcErrorView>(t),
        0 <= k < t.len(),
        t[k] == TokenView::Number(w),
    ensures
        is_numeral(w),
{
    numbers_from(s, 0, Seq::empty(), t);
}

/// A character that begins no token is what is wrong with the expression.
pub proof fn other_characters_are_wrong(s: Seq<char>)
    requires
        s.len() > 0,
        !text::is_white(s[0]),
        !is_figure(s[0]) && s[0] != '.' && s[0] != '_' && !lex::is_letter(s[0]),
        s[0] != '+' && s[0] != '-' && s[0] != '*' && s[0] != '/' && s[0] != '%' && s[0] != '^'
            && s[0] != '(' && s[0] != ')' && s[0] != ',',
    ensures
        lex::tokens_of(s) == Err::<Seq<TokenView>, CalcErrorView>(
            CalcErrorView::UnknownChar(s[0]),
        ),
{
}

} // verus!
