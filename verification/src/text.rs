//! Text as a sequence of characters: the operations the tools are written with.

use vstd::prelude::*;

verus! {

// ---------- std's strings ----------

/// `String::push` appends one character.
pub assume_specification [String::push](s: &mut String, c: char)
    ensures
        final(s)@ == old(s)@.push(c),
;

/// `String::push_str` appends a string slice.
pub assume_specification [String::push_str](s: &mut String, t: &str)
    ensures
        final(s)@ == old(s)@ + t@,
;

/// `==` on string slices (`str::eq`): the same characters.
#[verifier::external_body]
pub(crate) fn same(a: &str, b: &str) -> (r: bool)
    ensures
        r == (a@ == b@),
{
    a == b
}

/// The lower-case form of a text, as std's Unicode tables give it.
pub uninterp spec fn lowercase(s: Seq<char>) -> Seq<char>;

/// `str::to_lowercase`.
#[verifier::external_body]
pub(crate) fn to_lower(s: &str) -> (r: String)
    ensures
        r@ == lowercase(s@),
{
    s.to_lowercase()
}

/// The characters of a text, one by one.
pub fn chars_of(s: &str) -> (v: Vec<char>)
    ensures
        v@ == s@,
{
    let mut v: Vec<char> = Vec::new();
    for c in it: s.chars()
        invariant
            v@ == it.seq().take(it.index() as int),
            it.seq() == s@,
    {
        v.push(c);
    }
    v
}

/// The characters `from..to` as a text of their own.
pub fn slice(v: &Vec<char>, from: usize, to: usize) -> (r: String)
    requires
        from <= to <= v.len(),
    ensures
        r@ == v@.subrange(from as int, to as int),
{
    let mut r: String = String::new();
    let mut i: usize = from;
    while i < to
        invariant
            from <= i <= to <= v.len(),
            r@ == v@.subrange(from as int, i as int),
        decreases to - i,
    {
        r.push(v[i]);
        i = i + 1;
    }
    r
}

/// A text of the given characters.
pub fn string_of(v: &Vec<char>) -> (r: String)
    ensures
        r@ == v@,
{
    slice(v, 0, v.len())
}

/// An owned copy.
pub fn owned(s: &str) -> (r: String)
    ensures
        r@ == s@,
{
    s.to_owned()
}

// ---------- putting texts together ----------

pub fn cat2(a: &str, b: &str) -> (r: String)
    ensures
        r@ == a@ + b@,
{
    let mut r: String = owned(a);
    r.push_str(b);
    r
}

pub fn cat3(a: &str, b: &str, c: &str) -> (r: String)
    ensures
        r@ == a@ + b@ + c@,
{
    let mut r: String = cat2(a, b);
    r.push_str(c);
    r
}

pub fn cat4(a: &str, b: &str, c: &str, d: &str) -> (r: String)
    ensures
        r@ == a@ + b@ + c@ + d@,
{
    let mut r: String = cat3(a, b, c);
    r.push_str(d);
    r
}

pub fn cat5(a: &str, b: &str, c: &str, d: &str, e: &str) -> (r: String)
    ensures
        r@ == a@ + b@ + c@ + d@ + e@,
{
    let mut r: String = cat4(a, b, c, d);
    r.push_str(e);
    r
}

pub fn cat6(a: &str, b: &str, c: &str, d: &str, e: &str, f: &str) -> (r: String)
    ensures
        r@ == a@ + b@ + c@ + d@ + e@ + f@,
{
    let mut r: String = cat5(a, b, c, d, e);
    r.push_str(f);
    r
}

pub fn cat8(a: &str, b: &str, c: &str, d: &str, e: &str, f: &str, g: &str, h: &str) -> (r: String)
    ensures
        r@ == a@ + b@ + c@ + d@ + e@ + f@ + g@ + h@,
{
    let mut r: String = cat6(a, b, c, d, e, f);
    r.push_str(g);
    r.push_str(h);
    r
}

/// The texts of a list, each as its characters.
pub open spec fn views(v: Seq<String>) -> Seq<Seq<char>> {
    v.map_values(|s: String| s@)
}

pub broadcast proof fn views_push(v: Seq<String>, s: String)
    ensures
        #[trigger] views(v.push(s)) == views(v).push(s@),
{
    assert(views(v.push(s)) =~= views(v).push(s@));
}

/// All parts in order, with `sep` between neighbours.
pub open spec fn joined(parts: Seq<Seq<char>>, sep: Seq<char>) -> Seq<char>
    decreases parts.len(),
{
    if parts.len() == 0 {
        Seq::empty()
    } else if parts.len() == 1 {
        parts[0]
    } else {
        joined(parts.drop_last(), sep) + sep + parts.last()
    }
}

/// Joins the parts with `sep` between neighbours.
pub fn join(parts: &Vec<String>, sep: &str) -> (r: String)
    ensures
        r@ == joined(views(parts@), sep@),
{
    let mut r: String = String::new();
    let mut i: usize = 0;
    while i < parts.len()
        invariant
            i <= parts.len(),
            r@ == joined(views(parts@).take(i as int), sep@),
        decreases parts.len() - i,
    {
        if i > 0 {
            r.push_str(sep);
        }
        r.push_str(parts[i].as_str());
        i = i + 1;
        proof {
            let t = views(parts@).take(i as int);
            assert(t.drop_last() =~= views(parts@).take(i - 1));
            assert(t.last() == parts@[i - 1]@);
        }
    }
    assert(views(parts@).take(i as int) =~= views(parts@));
    r
}

// ---------- white space ----------

/// Unicode's `White_Space` property.
pub open spec fn is_white(c: char) -> bool {
    ||| '\u{9}' <= c <= '\u{d}'
    ||| c == ' '
    ||| c == '\u{85}'
    ||| c == '\u{a0}'
    ||| c == '\u{1680}'
    ||| '\u{2000}' <= c <= '\u{200a}'
    ||| c == '\u{2028}'
    ||| c == '\u{2029}'
    ||| c == '\u{202f}'
    ||| c == '\u{205f}'
    ||| c == '\u{3000}'
}

pub fn white(c: char) -> (r: bool)
    ensures
        r == is_white(c),
{
    ('\u{9}' <= c && c <= '\u{d}') || c == ' ' || c == '\u{85}' || c == '\u{a0}' || c == '\u{1680}' || (
    '\u{2000}' <= c && c <= '\u{200a}') || c == '\u{2028}' || c == '\u{2029}' || c == '\u{202f}' || c
        == '\u{205f}' || c == '\u{3000}'
}

pub open spec fn no_left_margin(s: Seq<char>) -> Seq<char>
    decreases s.len(),
{
    if s.len() > 0 && is_white(s[0]) {
        no_left_margin(s.drop_first())
    } else {
        s
    }
}

pub open spec fn no_right_margin(s: Seq<char>) -> Seq<char>
    decreases s.len(),
{
    if s.len() > 0 && is_white(s.last()) {
        no_right_margin(s.drop_last())
    } else {
        s
    }
}

/// Without the white space at either end.
pub open spec fn trimmed(s: Seq<char>) -> Seq<char> {
    no_right_margin(no_left_margin(s))
}

/// Without the white space at the end.
pub fn trim_end(s: &str) -> (r: String)
    ensures
        r@ == no_right_margin(s@),
{
    let v: Vec<char> = chars_of(s);
    let mut n: usize = v.len();
    assert(s@.take(n as int) =~= s@);
    while n > 0 && white(v[n - 1])
        invariant
            n <= v.len(),
            v@ == s@,
            no_right_margin(s@.take(n as int)) == no_right_margin(s@),
        decreases n,
    {
        assert(s@.take(n as int).drop_last() =~= s@.take(n - 1));
        n = n - 1;
    }
    assert(v@.subrange(0, n as int) =~= s@.take(n as int));
    slice(&v, 0, n)
}

/// Without the white space at either end.
pub fn trim(s: &str) -> (r: String)
    ensures
        r@ == trimmed(s@),
{
    let v: Vec<char> = chars_of(s);
    let mut i: usize = 0;
    assert(s@.skip(0) =~= s@);
    while i < v.len() && white(v[i])
        invariant
            i <= v.len(),
            v@ == s@,
            no_left_margin(s@.skip(i as int)) == no_left_margin(s@),
        decreases v.len() - i,
    {
        assert(s@.skip(i as int).drop_first() =~= s@.skip(i + 1));
        i = i + 1;
    }
    assert(v@.subrange(i as int, v.len() as int) =~= s@.skip(i as int));
    let tail: String = slice(&v, i, v.len());
    trim_end(tail.as_str())
}

/// Nothing but white space.
pub open spec fn is_blank(s: Seq<char>) -> bool {
    forall|i: int| 0 <= i < s.len() ==> is_white(#[trigger] s[i])
}

/// Whether there is nothing but white space.
pub fn blank(s: &str) -> (r: bool)
    ensures
        r == is_blank(s@),
{
    let v: Vec<char> = chars_of(s);
    let mut i: usize = 0;
    while i < v.len()
        invariant
            i <= v.len(),
            v@ == s@,
            forall|j: int| 0 <= j < i ==> is_white(#[trigger] s@[j]),
        decreases v.len() - i,
    {
        if !white(v[i]) {
            assert(!is_white(s@[i as int]));
            return false;
        }
        i = i + 1;
    }
    true
}

// ---------- numbers ----------

pub open spec fn digit(d: nat) -> char {
    (('0' as u32) + (d % 10)) as char
}

/// The decimal digits of a number.
pub open spec fn decimal(n: nat) -> Seq<char>
    decreases n,
{
    if n < 10 {
        seq![digit(n)]
    } else {
        decimal(n / 10).push(digit(n % 10))
    }
}

fn digit_char(d: u64) -> (c: char)
    requires
        d < 10,
    ensures
        c == digit(d as nat),
{
    if d == 0 {
        '0'
    } else if d == 1 {
        '1'
    } else if d == 2 {
        '2'
    } else if d == 3 {
        '3'
    } else if d == 4 {
        '4'
    } else if d == 5 {
        '5'
    } else if d == 6 {
        '6'
    } else if d == 7 {
        '7'
    } else if d == 8 {
        '8'
    } else {
        '9'
    }
}

/// A number in decimal.
pub fn dec_wide(n: u128) -> (r: String)
    ensures
        r@ == decimal(n as nat),
    decreases n,
{
    let mut r: String = if n < 10 {
        String::new()
    } else {
        dec_wide(n / 10)
    };
    r.push(digit_char((n % 10) as u64));
    r
}

/// A number in decimal.
pub fn dec(n: u64) -> (r: String)
    ensures
        r@ == decimal(n as nat),
{
    dec_wide(n as u128)
}

/// A number in decimal.
pub fn dec_usize(n: usize) -> (r: String)
    ensures
        r@ == decimal(n as nat),
{
    dec(n as u64)
}

/// A number in decimal, with a minus sign where it is negative.
pub open spec fn decimal_signed(n: int) -> Seq<char> {
    if n < 0 {
        seq!['-'] + decimal((-n) as nat)
    } else {
        decimal(n as nat)
    }
}

/// A number in decimal, with a minus sign where it is negative.
pub fn dec_signed_wide(n: i64) -> (r: String)
    ensures
        r@ == decimal_signed(n as int),
{
    if n < 0 {
        let mag: String = dec_wide((-(n as i128)) as u128);
        let mut r: String = String::new();
        r.push('-');
        r.push_str(mag.as_str());
        assert(r@ =~= seq!['-'] + mag@);
        r
    } else {
        dec(n as u64)
    }
}

/// A number in decimal, with a minus sign where it is negative.
pub fn dec_signed(n: i32) -> (r: String)
    ensures
        r@ == decimal_signed(n as int),
{
    dec_signed_wide(n as i64)
}

// ---------- searching and replacing ----------

/// `pat` stands in `s` at position `i`.
pub open spec fn stands_at(s: Seq<char>, pat: Seq<char>, i: int) -> bool {
    0 <= i && i + pat.len() <= s.len() && s.subrange(i, i + pat.len()) == pat
}

/// `pat` occurs somewhere in `s`.
pub open spec fn occurs(s: Seq<char>, pat: Seq<char>) -> bool {
    exists|i: int| stands_at(s, pat, i)
}

/// The first position from `from` on at which `pat` stands; -1 where there is none.
pub open spec fn find_from(s: Seq<char>, pat: Seq<char>, from: int) -> int
    decreases s.len() + 1 - from,
{
    if from < 0 || from + pat.len() > s.len() {
        -1
    } else if stands_at(s, pat, from) {
        from
    } else {
        find_from(s, pat, from + 1)
    }
}

/// Whether `pat` stands in `v` at position `i`.
pub fn at(v: &Vec<char>, pat: &Vec<char>, i: usize) -> (r: bool)
    ensures
        r == stands_at(v@, pat@, i as int),
{
    if i > v.len() || pat.len() > v.len() - i {
        return false;
    }
    let mut k: usize = 0;
    while k < pat.len()
        invariant
            k <= pat.len(),
            i + pat.len() <= v.len(),
            forall|j: int| 0 <= j < k ==> v@[i + j] == #[trigger] pat@[j],
        decreases pat.len() - k,
    {
        if v[i + k] != pat[k] {
            assert(v@.subrange(i as int, i + pat.len())[k as int] != pat@[k as int]);
            return false;
        }
        k = k + 1;
    }
    assert(v@.subrange(i as int, i + pat.len()) =~= pat@);
    true
}

/// The first position from `from` on at which `pat` stands.
pub fn find(v: &Vec<char>, pat: &Vec<char>, from: usize) -> (r: Option<usize>)
    ensures
        match r {
            Some(i) => find_from(v@, pat@, from as int) == i,
            None => find_from(v@, pat@, from as int) == -1,
        },
{
    let mut i: usize = from;
    while i <= v.len() && pat.len() <= v.len() - i
        invariant
            from <= i,
            find_from(v@, pat@, i as int) == find_from(v@, pat@, from as int),
        decreases v.len() + 1 - i,
    {
        if at(v, pat, i) {
            return Some(i);
        }
        if i == v.len() {
            assert(find_from(v@, pat@, i + 1) == -1);
            return None;
        }
        i = i + 1;
    }
    None
}

/// `find_from` gives the least position, and none only where there is none.
pub proof fn find_is_first(s: Seq<char>, pat: Seq<char>, from: int)
    requires
        0 <= from,
    ensures
        ({
            let r = find_from(s, pat, from);
            &&& r != -1 ==> from <= r && stands_at(s, pat, r)
            &&& r == -1 ==> forall|i: int| from <= i ==> !stands_at(s, pat, i)
            &&& r != -1 ==> forall|i: int| from <= i < r ==> !stands_at(s, pat, i)
            &&& r >= -1
        }),
    decreases s.len() + 1 - from,
{
    if from + pat.len() <= s.len() && !stands_at(s, pat, from) {
        find_is_first(s, pat, from + 1);
    }
}

/// Whether `pat` occurs in `s`.
pub fn contains(s: &str, pat: &str) -> (r: bool)
    ensures
        r == occurs(s@, pat@),
{
    let v: Vec<char> = chars_of(s);
    let p: Vec<char> = chars_of(pat);
    proof {
        find_is_first(s@, pat@, 0);
    }
    find(&v, &p, 0).is_some()
}

/// Whether `s` begins with `pat`.
pub fn starts_with(s: &str, pat: &str) -> (r: bool)
    ensures
        r == stands_at(s@, pat@, 0),
{
    at(&chars_of(s), &chars_of(pat), 0)
}

/// What follows the prefix `pat`, where `s` has it.
pub fn strip_prefix(s: &str, pat: &str) -> (r: Option<String>)
    ensures
        match r {
            Some(rest) => stands_at(s@, pat@, 0) && rest@ == s@.skip(pat@.len() as int),
            None => !stands_at(s@, pat@, 0),
        },
{
    let v: Vec<char> = chars_of(s);
    let p: Vec<char> = chars_of(pat);
    if at(&v, &p, 0) {
        assert(v@.subrange(p.len() as int, v.len() as int) =~= s@.skip(p.len() as int));
        Some(slice(&v, p.len(), v.len()))
    } else {
        None
    }
}

/// Every occurrence of `pat`, taken from the left without overlap, exchanged for `by`.
pub open spec fn replaced(s: Seq<char>, pat: Seq<char>, by: Seq<char>) -> Seq<char>
    decreases s.len(),
{
    if pat.len() == 0 || s.len() == 0 {
        s
    } else if stands_at(s, pat, 0) {
        by + replaced(s.skip(pat.len() as int), pat, by)
    } else {
        seq![s[0]] + replaced(s.skip(1), pat, by)
    }
}

/// Exchanges every occurrence of `pat` for `by`.
pub fn replace(s: &str, pat: &str, by: &str) -> (r: String)
    requires
        pat@.len() > 0,
    ensures
        r@ == replaced(s@, pat@, by@),
{
    let v: Vec<char> = chars_of(s);
    let p: Vec<char> = chars_of(pat);
    let mut r: String = String::new();
    let mut i: usize = 0;
    assert(s@.skip(0) =~= s@);
    while i < v.len()
        invariant
            i <= v.len(),
            v@ == s@,
            p@ == pat@,
            pat@.len() > 0,
            r@ + replaced(s@.skip(i as int), pat@, by@) =~= replaced(s@, pat@, by@),
        decreases v.len() - i,
    {
        let ghost rest = s@.skip(i as int);
        if at(&v, &p, i) {
            assert(rest.subrange(0, pat@.len() as int) =~= s@.subrange(i as int, i + pat@.len()));
            assert(rest.skip(pat@.len() as int) =~= s@.skip(i + pat@.len()));
            r.push_str(by);
            i = i + p.len();
        } else {
            assert(!stands_at(rest, pat@, 0)) by {
                if rest.len() >= pat@.len() {
                    assert(rest.subrange(0, pat@.len() as int) =~= s@.subrange(
                        i as int,
                        i + pat@.len(),
                    ));
                }
            }
            assert(rest.skip(1) =~= s@.skip(i + 1));
            r.push(v[i]);
            i = i + 1;
        }
    }
    r
}

/// How often `pat` occurs, taken from the left without overlap.
pub open spec fn occurrences(s: Seq<char>, pat: Seq<char>) -> nat
    decreases s.len(),
{
    if pat.len() == 0 || s.len() == 0 {
        0
    } else if stands_at(s, pat, 0) {
        1 + occurrences(s.skip(pat.len() as int), pat)
    } else {
        occurrences(s.skip(1), pat)
    }
}

/// How often `pat` occurs.
pub fn count(s: &str, pat: &str) -> (r: usize)
    requires
        pat@.len() > 0,
    ensures
        r == occurrences(s@, pat@),
{
    let v: Vec<char> = chars_of(s);
    let p: Vec<char> = chars_of(pat);
    let mut n: usize = 0;
    let mut i: usize = 0;
    assert(s@.skip(0) =~= s@);
    while i < v.len()
        invariant
            i <= v.len(),
            n <= i,
            v@ == s@,
            p@ == pat@,
            pat@.len() > 0,
            n + occurrences(s@.skip(i as int), pat@) == occurrences(s@, pat@),
        decreases v.len() - i,
    {
        let ghost rest = s@.skip(i as int);
        if at(&v, &p, i) {
            assert(rest.subrange(0, pat@.len() as int) =~= s@.subrange(i as int, i + pat@.len()));
            assert(rest.skip(pat@.len() as int) =~= s@.skip(i + pat@.len()));
            n = n + 1;
            i = i + p.len();
        } else {
            assert(!stands_at(rest, pat@, 0)) by {
                if rest.len() >= pat@.len() {
                    assert(rest.subrange(0, pat@.len() as int) =~= s@.subrange(
                        i as int,
                        i + pat@.len(),
                    ));
                }
            }
            assert(rest.skip(1) =~= s@.skip(i + 1));
            i = i + 1;
        }
    }
    n
}

// ---------- lines ----------

/// The parts between the occurrences of `sep`: one more than there are of those.
pub open spec fn split(s: Seq<char>, sep: char) -> Seq<Seq<char>>
    decreases s.len(),
{
    if s.len() == 0 {
        seq![Seq::empty()]
    } else {
        let before = split(s.drop_last(), sep);
        if s.last() == sep {
            before.push(Seq::empty())
        } else {
            before.drop_last().push(before.last().push(s.last()))
        }
    }
}

pub proof fn split_is_not_empty(s: Seq<char>, sep: char)
    ensures
        split(s, sep).len() >= 1,
    decreases s.len(),
{
    if s.len() > 0 {
        split_is_not_empty(s.drop_last(), sep);
    }
}

/// The parts between the occurrences of `sep`.
pub fn split_on(s: &str, sep: char) -> (r: Vec<String>)
    ensures
        views(r@) == split(s@, sep),
        r@.len() >= 1,
{
    let v: Vec<char> = chars_of(s);
    let mut done: Vec<String> = Vec::new();
    let mut open: String = String::new();
    let mut i: usize = 0;
    assert(views(done@).push(open@) =~= split(s@.take(0), sep));
    while i < v.len()
        invariant
            i <= v.len(),
            v@ == s@,
            views(done@).push(open@) == split(s@.take(i as int), sep),
        decreases v.len() - i,
    {
        let ghost now = views(done@).push(open@);
        assert(s@.take(i + 1).drop_last() =~= s@.take(i as int));
        assert(now.drop_last() =~= views(done@));
        if v[i] == sep {
            done.push(open);
            assert(views(done@) =~= now);
            open = String::new();
        } else {
            open.push(v[i]);
        }
        i = i + 1;
    }
    assert(s@.take(i as int) =~= s@);
    let ghost all = views(done@).push(open@);
    done.push(open);
    assert(views(done@) =~= all);
    done
}

/// A line without the carriage return at its end.
pub open spec fn no_return(line: Seq<char>) -> Seq<char> {
    if line.len() > 0 && line.last() == '\r' {
        line.drop_last()
    } else {
        line
    }
}

/// The lines of a text. A line ends with a line feed or with a carriage return
/// and a line feed; the last one may lack its end.
pub open spec fn lines_of(s: Seq<char>) -> Seq<Seq<char>> {
    let parts = split(s, '\n');
    let ended = parts.drop_last().map_values(|p: Seq<char>| no_return(p));
    if parts.last().len() == 0 {
        ended
    } else {
        ended.push(parts.last())
    }
}

/// The lines of a text.
pub fn lines(s: &str) -> (r: Vec<String>)
    ensures
        views(r@) == lines_of(s@),
{
    let mut parts: Vec<String> = split_on(s, '\n');
    let ghost all = parts@;
    let last: String = match parts.pop() {
        Some(p) => p,
        None => String::new(),
    };
    let mut r: Vec<String> = Vec::new();
    let mut i: usize = 0;
    while i < parts.len()
        invariant
            i <= parts.len(),
            r@.len() == i,
            forall|j: int| 0 <= j < i ==> (#[trigger] r@[j])@ == no_return(parts@[j]@),
        decreases parts.len() - i,
    {
        let v: Vec<char> = chars_of(parts[i].as_str());
        let n: usize = v.len();
        if n > 0 && v[n - 1] == '\r' {
            assert(v@.subrange(0, n - 1) =~= v@.drop_last());
            r.push(slice(&v, 0, n - 1));
        } else {
            r.push(string_of(&v));
        }
        i = i + 1;
    }
    let ghost ended = views(all).drop_last().map_values(|p: Seq<char>| no_return(p));
    assert(views(all).last() == last@);
    assert(views(r@) =~= ended);
    if !last.as_str().is_empty() {
        assert(last@.len() > 0);
        r.push(last);
        assert(views(r@) =~= ended.push(last@));
    } else {
        assert(last@.len() == 0);
    }
    r
}

// ---------- parts of a text ----------

/// The first `n` characters, or all of them.
pub open spec fn head_of(s: Seq<char>, n: int) -> Seq<char> {
    if s.len() <= n {
        s
    } else {
        s.take(n)
    }
}

/// The first `n` characters, or all of them.
pub fn head(s: &str, n: usize) -> (r: String)
    ensures
        r@ == head_of(s@, n as int),
{
    let v: Vec<char> = chars_of(s);
    if v.len() <= n {
        string_of(&v)
    } else {
        assert(v@.subrange(0, n as int) =~= v@.take(n as int));
        slice(&v, 0, n)
    }
}

/// How many characters there are.
pub fn length(s: &str) -> (r: usize)
    ensures
        r == s@.len(),
{
    chars_of(s).len()
}

/// `n` blanks.
pub open spec fn blanks(n: nat) -> Seq<char> {
    Seq::new(n, |i: int| ' ')
}

/// Blanks put before `s` up to a width.
pub open spec fn right_aligned(s: Seq<char>, width: nat) -> Seq<char> {
    if s.len() >= width {
        s
    } else {
        blanks((width - s.len()) as nat) + s
    }
}

/// Puts blanks before `s` up to a width.
pub fn align_right(s: &str, width: usize) -> (r: String)
    ensures
        r@ == right_aligned(s@, width as nat),
{
    let n: usize = length(s);
    let mut r: String = String::new();
    if n < width {
        let mut i: usize = 0;
        while i < width - n
            invariant
                n < width,
                i <= width - n,
                r@ =~= blanks(i as nat),
            decreases width - n - i,
        {
            r.push(' ');
            i = i + 1;
        }
    }
    r.push_str(s);
    assert(r@ =~= right_aligned(s@, width as nat));
    r
}

// ---------- numbers read from a text ----------

pub open spec fn is_digit(c: char) -> bool {
    '0' <= c <= '9'
}

pub open spec fn digit_value(c: char) -> int {
    c as int - '0' as int
}

/// The number that decimal digits stand for.
pub open spec fn digits_value(s: Seq<char>) -> int
    decreases s.len(),
{
    if s.len() == 0 {
        0
    } else {
        10 * digits_value(s.drop_last()) + digit_value(s.last())
    }
}

pub open spec fn all_digits(s: Seq<char>) -> bool {
    forall|i: int| 0 <= i < s.len() ==> is_digit(#[trigger] s[i])
}

/// The natural number that a text writes: digits, with or without a plus sign,
/// and no more than 64 bits hold.
pub open spec fn uint_of(s: Seq<char>) -> Option<u64> {
    let d = if s.len() > 0 && s[0] == '+' {
        s.skip(1)
    } else {
        s
    };
    if d.len() > 0 && all_digits(d) && digits_value(d) <= u64::MAX {
        Some(digits_value(d) as u64)
    } else {
        None
    }
}

proof fn digits_grow(s: Seq<char>, n: int)
    requires
        all_digits(s),
        0 <= n <= s.len(),
    ensures
        0 <= digits_value(s.take(n)) <= digits_value(s),
    decreases s.len(),
{
    if n < s.len() {
        let t = s.drop_last();
        assert(t.take(n) =~= s.take(n));
        assert forall|i: int| 0 <= i < t.len() implies is_digit(#[trigger] t[i]) by {
            assert(t[i] == s[i]);
        }
        digits_grow(t, n);
        assert(is_digit(s.last()));
    } else {
        assert(s.take(n) =~= s);
        if s.len() > 0 {
            let t = s.drop_last();
            assert forall|i: int| 0 <= i < t.len() implies is_digit(#[trigger] t[i]) by {
                assert(t[i] == s[i]);
            }
            digits_grow(t, t.len() as int);
            assert(t.take(t.len() as int) =~= t);
            assert(is_digit(s.last()));
        }
    }
}

/// Reads a natural number.
pub fn parse_uint(s: &str) -> (r: Option<u64>)
    ensures
        r == uint_of(s@),
{
    let v: Vec<char> = chars_of(s);
    let from: usize = if v.len() > 0 && v[0] == '+' {
        1
    } else {
        0
    };
    let ghost d = s@.skip(from as int);
    assert(s@.skip(0) =~= s@);
    if from == v.len() {
        return None;
    }
    let mut n: u64 = 0;
    let mut i: usize = from;
    while i < v.len()
        invariant
            from <= i <= v.len(),
            v@ == s@,
            d == s@.skip(from as int),
            uint_of(s@) == (if d.len() > 0 && all_digits(d) && digits_value(d) <= u64::MAX {
                Some(digits_value(d) as u64)
            } else {
                None::<u64>
            }),
            forall|j: int| 0 <= j < i - from ==> is_digit(#[trigger] d[j]),
            n == digits_value(d.take(i - from)),
        decreases v.len() - i,
    {
        let c: char = v[i];
        assert(d[i - from] == c);
        if !('0' <= c && c <= '9') {
            assert(!is_digit(d[i - from]));
            return None;
        }
        let x: u64 = (c as u32 - '0' as u32) as u64;
        assert(d.take(i - from + 1).drop_last() =~= d.take(i - from));
        assert(digits_value(d.take(i - from + 1)) == 10 * n + x);
        if n > 1844674407370955161 || 10 * n > u64::MAX - x {
            proof {
                if all_digits(d) {
                    digits_grow(d, i - from + 1);
                }
            }
            return None;
        }
        n = 10 * n + x;
        i = i + 1;
    }
    assert(d.take(i - from) =~= d);
    Some(n)
}

// ---------- order ----------

/// `a` comes before `b` in the order of their characters, or is `b`.
pub open spec fn not_after(a: Seq<char>, b: Seq<char>) -> bool
    decreases a.len(),
{
    if a.len() == 0 {
        true
    } else if b.len() == 0 {
        false
    } else if a[0] == b[0] {
        not_after(a.skip(1), b.skip(1))
    } else {
        a[0] < b[0]
    }
}

/// Of two texts neither of which comes after the other both are the same.
pub proof fn not_after_both_ways(a: Seq<char>, b: Seq<char>)
    requires
        not_after(a, b),
        not_after(b, a),
    ensures
        a == b,
    decreases a.len(),
{
    if a.len() == 0 || b.len() == 0 {
        assert(a =~= b);
    } else {
        not_after_both_ways(a.skip(1), b.skip(1));
        assert(a =~= seq![a[0]] + a.skip(1));
        assert(b =~= seq![b[0]] + b.skip(1));
    }
}

/// Where two texts first differ decides which comes first.
pub proof fn first_difference_decides(a: Seq<char>, b: Seq<char>, k: int)
    requires
        0 <= k < a.len(),
        k < b.len(),
        forall|j: int| 0 <= j < k ==> #[trigger] a[j] == b[j],
        a[k] < b[k],
    ensures
        not_after(a, b),
        a != b,
    decreases k,
{
    if k > 0 {
        assert(a[0] == b[0]);
        assert forall|j: int| 0 <= j < k - 1 implies #[trigger] a.skip(1)[j] == b.skip(1)[j] by {
            assert(a[j + 1] == b[j + 1]);
        }
        first_difference_decides(a.skip(1), b.skip(1), k - 1);
    }
}

/// Whether `a` comes before `b` or is `b`.
pub fn le(a: &str, b: &str) -> (r: bool)
    ensures
        r == not_after(a@, b@),
{
    let x: Vec<char> = chars_of(a);
    let y: Vec<char> = chars_of(b);
    let mut i: usize = 0;
    assert(x@.skip(0) =~= x@ && y@.skip(0) =~= y@);
    while i < x.len() && i < y.len()
        invariant
            i <= x.len(),
            i <= y.len(),
            x@ == a@,
            y@ == b@,
            not_after(x@.skip(i as int), y@.skip(i as int)) == not_after(x@, y@),
        decreases x.len() - i,
    {
        let ghost p = x@.skip(i as int);
        let ghost q = y@.skip(i as int);
        assert(p.skip(1) =~= x@.skip(i + 1) && q.skip(1) =~= y@.skip(i + 1));
        if x[i] != y[i] {
            return x[i] < y[i];
        }
        i = i + 1;
    }
    i == x.len()
}

pub proof fn not_after_total(a: Seq<char>, b: Seq<char>)
    ensures
        not_after(a, b) || not_after(b, a),
        not_after(a, b) && not_after(b, a) ==> a == b,
    decreases a.len(),
{
    if a.len() > 0 && b.len() > 0 {
        if a[0] == b[0] {
            not_after_total(a.skip(1), b.skip(1));
            if not_after(a, b) && not_after(b, a) {
                assert(a =~= seq![a[0]] + a.skip(1));
                assert(b =~= seq![b[0]] + b.skip(1));
            }
        }
    } else if a.len() == 0 && b.len() == 0 {
        assert(a =~= b);
    }
}

pub proof fn not_after_transitive(a: Seq<char>, b: Seq<char>, c: Seq<char>)
    requires
        not_after(a, b),
        not_after(b, c),
    ensures
        not_after(a, c),
    decreases a.len(),
{
    if a.len() > 0 && b.len() > 0 && c.len() > 0 && a[0] == b[0] && b[0] == c[0] {
        not_after_transitive(a.skip(1), b.skip(1), c.skip(1));
    }
}

pub open spec fn is_ordered(s: Seq<Seq<char>>) -> bool {
    forall|i: int, j: int| 0 <= i < j < s.len() ==> #[trigger] not_after(s[i], s[j])
}

/// Where `x` goes in an ordered list: behind all that do not come after it.
pub open spec fn place_of(s: Seq<Seq<char>>, x: Seq<char>, i: int) -> int
    decreases s.len() - i,
{
    if 0 <= i < s.len() && not_after(s[i], x) {
        place_of(s, x, i + 1)
    } else {
        i
    }
}

/// The texts in order.
pub open spec fn ordered(s: Seq<Seq<char>>) -> Seq<Seq<char>>
    decreases s.len(),
{
    if s.len() == 0 {
        Seq::empty()
    } else {
        let t = ordered(s.drop_last());
        t.insert(place_of(t, s.last(), 0), s.last())
    }
}

proof fn place_splits(s: Seq<Seq<char>>, x: Seq<char>, i: int)
    requires
        is_ordered(s),
        0 <= i <= s.len(),
        forall|j: int| 0 <= j < i ==> not_after(#[trigger] s[j], x),
    ensures
        i <= place_of(s, x, i) <= s.len(),
        forall|j: int| 0 <= j < place_of(s, x, i) ==> not_after(#[trigger] s[j], x),
        forall|j: int| place_of(s, x, i) <= j < s.len() ==> not_after(x, #[trigger] s[j]),
    decreases s.len() - i,
{
    if i < s.len() && not_after(s[i], x) {
        place_splits(s, x, i + 1);
    } else if i < s.len() {
        not_after_total(s[i], x);
        assert forall|j: int| i <= j < s.len() implies not_after(x, #[trigger] s[j]) by {
            if j > i {
                assert(not_after(s[i], s[j]));
                not_after_transitive(x, s[i], s[j]);
            }
        }
    }
}

/// Ordering keeps every text as often as it was there, and puts them in order.
pub proof fn ordered_is_a_permutation(s: Seq<Seq<char>>)
    ensures
        is_ordered(ordered(s)),
        ordered(s).len() == s.len(),
        ordered(s).to_multiset() == s.to_multiset(),
    decreases s.len(),
{
    if s.len() > 0 {
        let t = ordered(s.drop_last());
        let x = s.last();
        ordered_is_a_permutation(s.drop_last());
        place_splits(t, x, 0);
        let p = place_of(t, x, 0);
        let r = t.insert(p, x);
        assert forall|i: int, j: int| 0 <= i < j < r.len() implies #[trigger] not_after(r[i], r[j]) by {
            if i < p && j < p {
                assert(not_after(t[i], t[j]));
            } else if i < p && j > p {
                assert(not_after(t[i], t[j - 1]));
            } else if i > p {
                assert(not_after(t[i - 1], t[j - 1]));
            } else if i == p {
                assert(not_after(x, t[j - 1]));
            } else {
                assert(not_after(t[i], x));
            }
        }
        vstd::seq_lib::to_multiset_insert(t, p, x);
        vstd::seq_lib::to_multiset_build(s.drop_last(), x);
        assert(s.drop_last().push(x) =~= s);
    } else {
        assert(s =~= Seq::<Seq<char>>::empty());
    }
}

/// Puts the texts in order.
pub fn sort(v: Vec<String>) -> (r: Vec<String>)
    ensures
        views(r@) == ordered(views(v@)),
        r@.len() == v@.len(),
{
    let mut r: Vec<String> = Vec::new();
    let mut i: usize = 0;
    let ghost all = views(v@);
    while i < v.len()
        invariant
            i <= v.len(),
            all == views(v@),
            r@.len() == i,
            views(r@) =~= ordered(all.take(i as int)),
        decreases v.len() - i,
    {
        let x: String = v[i].clone();
        let ghost t = views(r@);
        assert(all.take(i + 1).drop_last() =~= all.take(i as int));
        assert(all.take(i + 1).last() == x@);
        let mut p: usize = 0;
        while p < r.len() && le(r[p].as_str(), x.as_str())
            invariant
                p <= r.len(),
                t == views(r@),
                place_of(t, x@, p as int) == place_of(t, x@, 0),
            decreases r.len() - p,
        {
            p = p + 1;
        }
        r.insert(p, x);
        assert(views(r@) =~= t.insert(p as int, x@));
        i = i + 1;
    }
    assert(all.take(i as int) =~= all);
    r
}

/// The whole number that a text writes: digits, with or without a sign, and no
/// more than 32 bits hold.
pub open spec fn int_of(s: Seq<char>) -> Option<i32> {
    let signed = s.len() > 0 && (s[0] == '+' || s[0] == '-');
    let d = if signed {
        s.skip(1)
    } else {
        s
    };
    let n = if signed && s[0] == '-' {
        -digits_value(d)
    } else {
        digits_value(d)
    };
    if d.len() > 0 && all_digits(d) && i32::MIN <= n <= i32::MAX {
        Some(n as i32)
    } else {
        None
    }
}

/// Reads a whole number.
pub fn parse_int(s: &str) -> (r: Option<i32>)
    ensures
        r == int_of(s@),
{
    let v: Vec<char> = chars_of(s);
    let signed: bool = v.len() > 0 && (v[0] == '+' || v[0] == '-');
    let negative: bool = v.len() > 0 && v[0] == '-';
    let from: usize = if signed {
        1
    } else {
        0
    };
    let ghost d = s@.skip(from as int);
    assert(s@.skip(0) =~= s@);
    if from == v.len() {
        return None;
    }
    proof {
        if all_digits(d) {
            digits_grow(d, 0);
        }
    }
    let mut n: i64 = 0;
    let mut i: usize = from;
    while i < v.len()
        invariant
            from <= i <= v.len(),
            v@ == s@,
            d == s@.skip(from as int),
            negative == (v.len() > 0 && v@[0] == '-'),
            from == (if v.len() > 0 && (v@[0] == '+' || v@[0] == '-') {
                1int
            } else {
                0
            }),
            from < v.len(),
            forall|j: int| 0 <= j < i - from ==> is_digit(#[trigger] d[j]),
            n == digits_value(d.take(i - from)),
            0 <= n <= 2147483648,
            int_of(s@) == (if all_digits(d) && (if negative {
                digits_value(d) <= 2147483648
            } else {
                digits_value(d) <= 2147483647
            }) {
                Some(
                    (if negative {
                        -digits_value(d)
                    } else {
                        digits_value(d)
                    }) as i32,
                )
            } else {
                None::<i32>
            }),
        decreases v.len() - i,
    {
        let c: char = v[i];
        assert(d[i - from] == c);
        if !('0' <= c && c <= '9') {
            assert(!is_digit(d[i - from]));
            return None;
        }
        let x: i64 = (c as u32 - '0' as u32) as i64;
        assert(d.take(i - from + 1).drop_last() =~= d.take(i - from));
        assert(digits_value(d.take(i - from + 1)) == 10 * n + x);
        if 10 * n + x > 2147483648 {
            proof {
                if all_digits(d) {
                    digits_grow(d, i - from + 1);
                }
            }
            return None;
        }
        n = 10 * n + x;
        i = i + 1;
    }
    assert(d.take(i - from) =~= d);
    if negative {
        Some((-n) as i32)
    } else if n <= 2147483647 {
        Some(n as i32)
    } else {
        None
    }
}

/// A number in decimal is digits that stand for it.
pub proof fn decimal_is_digits(n: nat)
    ensures
        decimal(n).len() > 0,
        all_digits(decimal(n)),
        digits_value(decimal(n)) == n,
        forall|i: int| 0 <= i < decimal(n).len() ==> !is_white(#[trigger] decimal(n)[i]),
    decreases n,
{
    assert(digit(n % 10) == (('0' as u32) + (n % 10)) as char);
    let d: nat = n % 10;
    assert(is_digit(digit(d)));
    assert(digit_value(digit(d)) == d);
    if n >= 10 {
        decimal_is_digits(n / 10);
        let t = decimal(n / 10);
        assert(decimal(n).drop_last() =~= t);
        assert forall|i: int| 0 <= i < decimal(n).len() implies is_digit(#[trigger] decimal(n)[i]) by {
            if i < t.len() {
                assert(decimal(n)[i] == t[i]);
            }
        }
    } else {
        assert(decimal(n) =~= seq![digit(n)]);
        assert(digit(n) == digit(d));
        assert(decimal(n).drop_last() =~= Seq::<char>::empty());
        reveal_with_fuel(digits_value, 2);
    }
    assert forall|i: int| 0 <= i < decimal(n).len() implies !is_white(#[trigger] decimal(n)[i]) by {
        assert(is_digit(decimal(n)[i]));
    }
}

/// Reading a number that was written gives it back.
pub proof fn int_reads_back(n: i32)
    ensures
        int_of(decimal_signed(n as int)) == Some(n),
        decimal_signed(n as int).len() > 0,
        forall|i: int|
            0 <= i < decimal_signed(n as int).len() ==> !is_white(
                #[trigger] decimal_signed(n as int)[i],
            ),
{
    let m = n as int;
    if m < 0 {
        let d = decimal((-m) as nat);
        decimal_is_digits((-m) as nat);
        let s = decimal_signed(m);
        assert(s =~= seq!['-'] + d);
        assert(s.skip(1) =~= d);
    } else {
        let d = decimal(m as nat);
        decimal_is_digits(m as nat);
        assert(is_digit(d[0]));
    }
}

/// The parts around a separator are those before it and those behind it.
pub proof fn split_at_separator(a: Seq<char>, sep: char, b: Seq<char>)
    ensures
        split(a.push(sep) + b, sep) == split(a, sep) + split(b, sep),
    decreases b.len(),
{
    let whole = a.push(sep) + b;
    if b.len() == 0 {
        assert(whole =~= a.push(sep));
        assert(whole.drop_last() =~= a);
        assert(split(whole, sep) =~= split(a, sep) + split(b, sep));
    } else {
        let b1 = b.drop_last();
        split_at_separator(a, sep, b1);
        assert(whole.drop_last() =~= a.push(sep) + b1);
        split_is_not_empty(b1, sep);
        let left = split(a, sep);
        let right = split(b1, sep);
        assert((left + right).drop_last() =~= left + right.drop_last());
        assert((left + right).last() == right.last());
        assert(split(whole, sep) =~= left + split(b, sep));
    }
}

/// A text without the separator is one part.
pub proof fn split_without_separator(s: Seq<char>, sep: char)
    requires
        !s.contains(sep),
    ensures
        split(s, sep) == seq![s],
    decreases s.len(),
{
    if s.len() > 0 {
        let t = s.drop_last();
        assert(!t.contains(sep)) by {
            if t.contains(sep) {
                let i = choose|i: int| 0 <= i < t.len() && t[i] == sep;
                assert(s[i] == sep);
            }
        }
        split_without_separator(t, sep);
        assert(s.last() != sep);
        assert(s =~= t.push(s.last()));
        assert(split(s, sep) =~= seq![s]);
    } else {
        assert(s =~= Seq::<char>::empty());
        assert(split(s, sep) =~= seq![s]);
    }
}

// ---------- words ----------

/// The words of a text: what stands between white space.
pub open spec fn words_of(s: Seq<char>) -> Seq<Seq<char>> {
    let w = open_words(s);
    if w.1.len() == 0 {
        w.0
    } else {
        w.0.push(w.1)
    }
}

/// The finished words of a text, and the one still open at its end.
pub open spec fn open_words(s: Seq<char>) -> (Seq<Seq<char>>, Seq<char>)
    decreases s.len(),
{
    if s.len() == 0 {
        (Seq::empty(), Seq::empty())
    } else {
        let w = open_words(s.drop_last());
        if !is_white(s.last()) {
            (w.0, w.1.push(s.last()))
        } else if w.1.len() == 0 {
            w
        } else {
            (w.0.push(w.1), Seq::empty())
        }
    }
}

/// The words of a text.
pub fn words(s: &str) -> (r: Vec<String>)
    ensures
        views(r@) == words_of(s@),
{
    broadcast use views_push;

    let v: Vec<char> = chars_of(s);
    let mut done: Vec<String> = Vec::new();
    let mut open: String = String::new();
    let mut i: usize = 0;
    assert(views(done@) =~= Seq::<Seq<char>>::empty());
    while i < v.len()
        invariant
            i <= v.len(),
            v@ == s@,
            views(done@) == open_words(s@.take(i as int)).0,
            open@ == open_words(s@.take(i as int)).1,
        decreases v.len() - i,
    {
        assert(s@.take(i + 1).drop_last() =~= s@.take(i as int));
        if !white(v[i]) {
            open.push(v[i]);
        } else if !open.as_str().is_empty() {
            done.push(open);
            open = String::new();
        }
        i = i + 1;
    }
    assert(s@.take(i as int) =~= s@);
    if !open.as_str().is_empty() {
        done.push(open);
    }
    done
}

/// On one line: the words with one blank between neighbours.
pub open spec fn flattened(s: Seq<char>) -> Seq<char> {
    joined(words_of(s), " "@)
}

/// Puts a text on one line.
pub fn flatten(s: &str) -> (r: String)
    ensures
        r@ == flattened(s@),
{
    join(&words(s), " ")
}

// ---------- ASCII ----------

pub open spec fn ascii_lower(c: char) -> char {
    if 'A' <= c <= 'Z' {
        (c as u32 + 32) as char
    } else {
        c
    }
}

/// A small letter for one of `A` to `Z`.
pub(crate) fn lower_ascii(c: char) -> (r: char)
    ensures
        r == ascii_lower(c),
{
    if 'A' <= c && c <= 'Z' {
        (c as u8 + 32) as char
    } else {
        c
    }
}

/// With small letters for `A` to `Z`.
pub open spec fn ascii_lowered(s: Seq<char>) -> Seq<char> {
    s.map_values(|c: char| ascii_lower(c))
}

/// Turns `A` to `Z` into small letters.
pub fn to_ascii_lower(s: &str) -> (r: String)
    ensures
        r@ == ascii_lowered(s@),
{
    let v: Vec<char> = chars_of(s);
    let mut r: String = String::new();
    let mut i: usize = 0;
    while i < v.len()
        invariant
            i <= v.len(),
            v@ == s@,
            r@ =~= ascii_lowered(s@).take(i as int),
        decreases v.len() - i,
    {
        r.push(lower_ascii(v[i]));
        i = i + 1;
    }
    assert(ascii_lowered(s@).take(i as int) =~= ascii_lowered(s@));
    r
}

/// The position of the last `c`; -1 where there is none.
pub open spec fn last_index(s: Seq<char>, c: char) -> int
    decreases s.len(),
{
    if s.len() == 0 {
        -1
    } else if s.last() == c {
        s.len() - 1
    } else {
        last_index(s.drop_last(), c)
    }
}

pub proof fn last_index_is_there(s: Seq<char>, c: char)
    ensures
        last_index(s, c) >= 0 <==> s.contains(c),
        last_index(s, c) >= -1,
    decreases s.len(),
{
    if s.len() > 0 {
        let t = s.drop_last();
        last_index_is_there(t, c);
        if s.last() == c {
            assert(s[s.len() - 1] == c);
        } else if s.contains(c) {
            let i = choose|i: int| 0 <= i < s.len() && s[i] == c;
            assert(t[i] == c);
        } else if t.contains(c) {
            let i = choose|i: int| 0 <= i < t.len() && t[i] == c;
            assert(s[i] == c);
        }
    }
}

/// What follows the last `c`, where there is one.
pub fn after_last(s: &str, c: char) -> (r: Option<String>)
    ensures
        match r {
            Some(t) => last_index(s@, c) >= 0 && t@ == s@.skip(last_index(s@, c) + 1),
            None => last_index(s@, c) == -1,
        },
{
    let v: Vec<char> = chars_of(s);
    let mut n: usize = v.len();
    assert(s@.take(n as int) =~= s@);
    while n > 0
        invariant
            n <= v.len(),
            v@ == s@,
            last_index(s@.take(n as int), c) == last_index(s@, c),
        decreases n,
    {
        if v[n - 1] == c {
            assert(v@.subrange(n as int, v.len() as int) =~= s@.skip(n as int));
            return Some(slice(&v, n, v.len()));
        }
        assert(s@.take(n as int).drop_last() =~= s@.take(n - 1));
        n = n - 1;
    }
    None
}

/// The first occurrence of `pat` exchanged for `by`.
pub open spec fn replaced_first(s: Seq<char>, pat: Seq<char>, by: Seq<char>) -> Seq<char> {
    let i = find_from(s, pat, 0);
    if i < 0 {
        s
    } else {
        s.take(i) + by + s.skip(i + pat.len())
    }
}

/// Exchanges the first occurrence of `pat` for `by`.
pub fn replace_first(s: &str, pat: &str, by: &str) -> (r: String)
    ensures
        r@ == replaced_first(s@, pat@, by@),
{
    let v: Vec<char> = chars_of(s);
    let p: Vec<char> = chars_of(pat);
    proof {
        find_is_first(s@, pat@, 0);
    }
    match find(&v, &p, 0) {
        Some(i) => {
            let mut r: String = slice(&v, 0, i);
            r.push_str(by);
            let tail: String = slice(&v, i + p.len(), v.len());
            r.push_str(tail.as_str());
            assert(v@.subrange(0, i as int) =~= s@.take(i as int));
            assert(v@.subrange(i + p.len(), v.len() as int) =~= s@.skip(i + p.len()));
            r
        },
        None => owned(s),
    }
}

/// The beginning of a text has no more parts than all of it.
pub proof fn split_of_beginning(s: Seq<char>, n: int, sep: char)
    requires
        0 <= n <= s.len(),
    ensures
        split(s.take(n), sep).len() <= split(s, sep).len(),
    decreases s.len(),
{
    if n < s.len() {
        let t = s.drop_last();
        assert(t.take(n) =~= s.take(n));
        split_of_beginning(t, n, sep);
        split_is_not_empty(t, sep);
    } else {
        assert(s.take(n) =~= s);
    }
}

/// What is counted at least once stands somewhere.
pub proof fn counted_occurs(s: Seq<char>, pat: Seq<char>)
    requires
        occurrences(s, pat) > 0,
    ensures
        occurs(s, pat),
        find_from(s, pat, 0) >= 0,
    decreases s.len(),
{
    if stands_at(s, pat, 0) {
    } else {
        let t = s.skip(1);
        counted_occurs(t, pat);
        let i = choose|i: int| stands_at(t, pat, i);
        assert(s.subrange(i + 1, i + 1 + pat.len()) =~= t.subrange(i, i + pat.len()));
        assert(stands_at(s, pat, i + 1));
    }
    find_is_first(s, pat, 0);
}

/// The parts between the occurrences of `pat`, taken from the left.
pub open spec fn split_str(s: Seq<char>, pat: Seq<char>) -> Seq<Seq<char>>
    decreases s.len(),
{
    let i = find_from(s, pat, 0);
    if pat.len() == 0 || i < 0 {
        seq![s]
    } else {
        proof {
            find_is_first(s, pat, 0);
        }
        seq![s.take(i)] + split_str(s.skip(i + pat.len()), pat)
    }
}

/// The parts between the occurrences of `pat`.
pub fn split_on_str(s: &str, pat: &str) -> (r: Vec<String>)
    requires
        pat@.len() > 0,
    ensures
        views(r@) == split_str(s@, pat@),
{
    let p: Vec<char> = chars_of(pat);
    let mut rest: Vec<char> = chars_of(s);
    let mut parts: Vec<String> = Vec::new();
    let mut more: bool = true;
    assert(views(parts@) =~= Seq::<Seq<char>>::empty());
    assert(Seq::<Seq<char>>::empty() + split_str(s@, pat@) =~= split_str(s@, pat@));
    while more
        invariant
            p@ == pat@,
            pat@.len() > 0,
            more ==> views(parts@) + split_str(rest@, pat@) =~= split_str(s@, pat@),
            !more ==> views(parts@) =~= split_str(s@, pat@),
        decreases
            (if more {
                rest@.len() + 1
            } else {
                0
            }),
    {
        broadcast use views_push;

        proof {
            find_is_first(rest@, pat@, 0);
        }
        match find(&rest, &p, 0) {
            Some(i) => {
                let part: String = slice(&rest, 0, i);
                let tail: String = slice(&rest, i + p.len(), rest.len());
                assert(part@ =~= rest@.take(i as int));
                assert(tail@ =~= rest@.skip(i + p.len()));
                parts.push(part);
                rest = chars_of(tail.as_str());
            },
            None => {
                parts.push(string_of(&rest));
                more = false;
            },
        }
    }
    parts
}

} // verus!
