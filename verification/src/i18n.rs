//! The texts the model and the user read, in each language.

use vstd::prelude::*;
use crate::bundle::BUNDLE;
use crate::text;

verus! {

/// A language the texts exist in.
#[derive(Debug, Clone, Copy, PartialEq, Eq, Structural)]
pub enum Lang {
    Ru,
    En,
}

/// Every language.
pub const LANGS: [Lang; 2] = [Lang::Ru, Lang::En];

/// The texts of one language.
#[derive(Debug, Clone, Copy, PartialEq, Eq, Structural)]
pub struct Locale {
    pub lang: Lang,
}

/// The position of `key` in the bundle, searched from `i` on; -1 where it has none.
pub open spec fn entry_from(key: Seq<char>, i: int) -> int
    decreases BUNDLE@.len() - i,
{
    if i < 0 || i >= BUNDLE@.len() {
        -1
    } else if BUNDLE@[i].0@ == key {
        i
    } else {
        entry_from(key, i + 1)
    }
}

/// The bundle has a text under `key`.
#[verifier::opaque]
pub open spec fn known(key: Seq<char>) -> bool {
    entry_from(key, 0) >= 0
}

impl Locale {
    /// The text under `key`; the key itself where there is none.
    #[verifier::opaque]
    pub open spec fn text(self, key: Seq<char>) -> Seq<char> {
        let i = entry_from(key, 0);
        if i < 0 {
            key
        } else {
            match self.lang {
                Lang::Ru => BUNDLE@[i].1@,
                Lang::En => BUNDLE@[i].2@,
            }
        }
    }

    /// Whether the bundle has a text under `key`.
    pub fn has_key(&self, key: &str) -> (r: bool)
        ensures
            r == known(key@),
    {
        reveal(known);
        entry(key).is_some()
    }

    /// The text under `key`; the key itself where there is none.
    pub fn t<'a>(&self, key: &'a str) -> (r: &'a str)
        ensures
            r@ == self.text(key@),
    {
        reveal(Locale::text);
        match entry(key) {
            None => key,
            Some(i) => match self.lang {
                Lang::Ru => BUNDLE[i].1,
                Lang::En => BUNDLE[i].2,
            },
        }
    }

    /// The text under `key` with `{n1}` exchanged for `v1`.
    pub open spec fn text1(self, key: Seq<char>, n1: Seq<char>, v1: Seq<char>) -> Seq<char> {
        text::replaced(self.text(key), seq!['{'] + n1 + seq!['}'], v1)
    }

    pub open spec fn text2(
        self,
        key: Seq<char>,
        n1: Seq<char>,
        v1: Seq<char>,
        n2: Seq<char>,
        v2: Seq<char>,
    ) -> Seq<char> {
        text::replaced(self.text1(key, n1, v1), seq!['{'] + n2 + seq!['}'], v2)
    }

    pub open spec fn text3(
        self,
        key: Seq<char>,
        n1: Seq<char>,
        v1: Seq<char>,
        n2: Seq<char>,
        v2: Seq<char>,
        n3: Seq<char>,
        v3: Seq<char>,
    ) -> Seq<char> {
        text::replaced(self.text2(key, n1, v1, n2, v2), seq!['{'] + n3 + seq!['}'], v3)
    }

    pub open spec fn text4(
        self,
        key: Seq<char>,
        n1: Seq<char>,
        v1: Seq<char>,
        n2: Seq<char>,
        v2: Seq<char>,
        n3: Seq<char>,
        v3: Seq<char>,
        n4: Seq<char>,
        v4: Seq<char>,
    ) -> Seq<char> {
        text::replaced(self.text3(key, n1, v1, n2, v2, n3, v3), seq!['{'] + n4 + seq!['}'], v4)
    }

    /// The text under `key` with one placeholder filled.
    pub fn tf1(&self, key: &str, n1: &str, v1: &str) -> (r: String)
        ensures
            r@ == self.text1(key@, n1@, v1@),
    {
        fill(self.t(key), n1, v1)
    }

    /// The text under `key` with two placeholders filled, the first one first.
    pub fn tf2(&self, key: &str, n1: &str, v1: &str, n2: &str, v2: &str) -> (r: String)
        ensures
            r@ == self.text2(key@, n1@, v1@, n2@, v2@),
    {
        fill(self.tf1(key, n1, v1).as_str(), n2, v2)
    }

    /// The text under `key` with three placeholders filled, in order.
    pub fn tf3(
        &self,
        key: &str,
        n1: &str,
        v1: &str,
        n2: &str,
        v2: &str,
        n3: &str,
        v3: &str,
    ) -> (r: String)
        ensures
            r@ == self.text3(key@, n1@, v1@, n2@, v2@, n3@, v3@),
    {
        fill(self.tf2(key, n1, v1, n2, v2).as_str(), n3, v3)
    }

    /// The text under `key` with four placeholders filled, in order.
    pub fn tf4(
        &self,
        key: &str,
        n1: &str,
        v1: &str,
        n2: &str,
        v2: &str,
        n3: &str,
        v3: &str,
        n4: &str,
        v4: &str,
    ) -> (r: String)
        ensures
            r@ == self.text4(key@, n1@, v1@, n2@, v2@, n3@, v3@, n4@, v4@),
    {
        fill(self.tf3(key, n1, v1, n2, v2, n3, v3).as_str(), n4, v4)
    }
}

impl Lang {
    /// The texts of this language.
    pub fn locale(self) -> (r: Locale)
        ensures
            r.lang == self,
    {
        Locale { lang: self }
    }
}

/// `{name}` exchanged for `value`, everywhere.
fn fill(template: &str, name: &str, value: &str) -> (r: String)
    ensures
        r@ == text::replaced(template@, seq!['{'] + name@ + seq!['}'], value@),
{
    let mut hole: String = String::new();
    hole.push('{');
    hole.push_str(name);
    hole.push('}');
    assert(hole@ =~= seq!['{'] + name@ + seq!['}']);
    text::replace(template, hole.as_str(), value)
}

/// The position of `key` in the bundle.
fn entry(key: &str) -> (r: Option<usize>)
    ensures
        match r {
            Some(i) => i < BUNDLE@.len() && entry_from(key@, 0) == i,
            None => entry_from(key@, 0) == -1,
        },
{
    let mut i: usize = 0;
    while i < BUNDLE.len()
        invariant
            i <= BUNDLE@.len(),
            entry_from(key@, i as int) == entry_from(key@, 0),
        decreases BUNDLE@.len() - i,
    {
        if text::same(BUNDLE[i].0, key) {
            return Some(i);
        }
        i = i + 1;
    }
    None
}

} // verus!
