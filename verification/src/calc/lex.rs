//! The tokens of an expression, and what can be wrong with one.

use vstd::prelude::*;
use crate::i18n::Locale;
use crate::text;

verus! {

/// A token. A number is held as it is written.
#[derive(Debug)]
pub enum Token {
    Number(String),
    Ident(String),
    Plus,
    Minus,
    Star,
    Slash,
    Percent,
    Caret,
    LParen,
    RParen,
    Comma,
}

/// What a [`Token`] holds.
pub enum TokenView {
    Number(Seq<char>),
    Ident(Seq<char>),
    Plus,
    Minus,
    Star,
    Slash,
    Percent,
    Caret,
    LParen,
    RParen,
    Comma,
}

impl View for Token {
    type V = TokenView;

    open spec fn view(&self) -> TokenView {
        match *self {
            Token::Number(s) => TokenView::Number(s@),
            Token::Ident(s) => TokenView::Ident(s@),
            Token::Plus => TokenView::Plus,
            Token::Minus => TokenView::Minus,
            Token::Star => TokenView::Star,
            Token::Slash => TokenView::Slash,
            Token::Percent => TokenView::Percent,
            Token::Caret => TokenView::Caret,
            Token::LParen => TokenView::LParen,
            Token::RParen => TokenView::RParen,
            Token::Comma => TokenView::Comma,
        }
    }
}

impl Token {
    /// The same token once more.
    pub fn again(&self) -> (r: Token)
        ensures
            r@ == self@,
    {
        match self {
            Token::Number(s) => Token::Number(s.clone()),
            Token::Ident(s) => Token::Ident(s.clone()),
            Token::Plus => Token::Plus,
            Token::Minus => Token::Minus,
            Token::Star => Token::Star,
            Token::Slash => Token::Slash,
            Token::Percent => Token::Percent,
            Token::Caret => Token::Caret,
            Token::LParen => Token::LParen,
            Token::RParen => Token::RParen,
            Token::Comma => Token::Comma,
        }
    }
}

pub open spec fn token_views(v: Seq<Token>) -> Seq<TokenView> {
    v.map_values(|t: Token| t@)
}

/// What is wrong with an expression.
#[derive(Debug)]
pub enum CalcError {
    BadNumber(String),
    UnknownChar(char),
    /// No value can begin with this token, or the tokens are at an end.
    Unexpected(Option<Token>),
    /// A closing bracket is missing here.
    Expected(Option<Token>),
    UnknownConst(String),
    ArityOne(String, usize),
    ArityTwo(String, usize),
    NeedsArgs(String),
    UnknownFunc(String),
    Empty,
    ExtraTokens,
}

/// What a [`CalcError`] holds.
pub enum CalcErrorView {
    BadNumber(Seq<char>),
    UnknownChar(char),
    Unexpected(Option<TokenView>),
    Expected(Option<TokenView>),
    UnknownConst(Seq<char>),
    ArityOne(Seq<char>, nat),
    ArityTwo(Seq<char>, nat),
    NeedsArgs(Seq<char>),
    UnknownFunc(Seq<char>),
    Empty,
    ExtraTokens,
}

pub open spec fn opt_token(t: Option<Token>) -> Option<TokenView> {
    match t {
        Some(t) => Some(t@),
        None => None,
    }
}

impl View for CalcError {
    type V = CalcErrorView;

    open spec fn view(&self) -> CalcErrorView {
        match *self {
            CalcError::BadNumber(s) => CalcErrorView::BadNumber(s@),
            CalcError::UnknownChar(c) => CalcErrorView::UnknownChar(c),
            CalcError::Unexpected(t) => CalcErrorView::Unexpected(opt_token(t)),
            CalcError::Expected(t) => CalcErrorView::Expected(opt_token(t)),
            CalcError::UnknownConst(s) => CalcErrorView::UnknownConst(s@),
            CalcError::ArityOne(s, n) => CalcErrorView::ArityOne(s@, n as nat),
            CalcError::ArityTwo(s, n) => CalcErrorView::ArityTwo(s@, n as nat),
            CalcError::NeedsArgs(s) => CalcErrorView::NeedsArgs(s@),
            CalcError::UnknownFunc(s) => CalcErrorView::UnknownFunc(s@),
            CalcError::Empty => CalcErrorView::Empty,
            CalcError::ExtraTokens => CalcErrorView::ExtraTokens,
        }
    }
}

// ---------- characters ----------

/// Whether a character is a letter, by std's Unicode tables.
pub uninterp spec fn is_letter(c: char) -> bool;

/// `char::is_alphabetic`.
#[verifier::external_body]
fn letter(c: char) -> (r: bool)
    ensures
        r == is_letter(c),
{
    c.is_alphabetic()
}

/// Whether a character is a letter or a number sign of any script, by std's Unicode
/// tables.
pub uninterp spec fn is_letter_or_number(c: char) -> bool;

/// `char::is_alphanumeric`, which holds of every letter.
#[verifier::external_body]
fn letter_or_number(c: char) -> (r: bool)
    ensures
        r == is_letter_or_number(c),
        is_letter(c) ==> r,
{
    c.is_alphanumeric()
}

/// A text in quotes, with what cannot be printed escaped, as std's `Debug` for `str`
/// writes it.
pub uninterp spec fn quoted(s: Seq<char>) -> Seq<char>;

/// `Debug` for `str`.
#[verifier::external_body]
fn quote(s: &str) -> (r: String)
    ensures
        r@ == quoted(s@),
{
    format!("{:?}", s)
}

/// The token that a character is by itself.
pub open spec fn mark(c: char) -> Option<TokenView> {
    if c == '+' {
        Some(TokenView::Plus)
    } else if c == '-' {
        Some(TokenView::Minus)
    } else if c == '*' {
        Some(TokenView::Star)
    } else if c == '/' {
        Some(TokenView::Slash)
    } else if c == '%' {
        Some(TokenView::Percent)
    } else if c == '^' {
        Some(TokenView::Caret)
    } else if c == '(' {
        Some(TokenView::LParen)
    } else if c == ')' {
        Some(TokenView::RParen)
    } else if c == ',' {
        Some(TokenView::Comma)
    } else {
        None
    }
}

fn mark_token(c: char) -> (r: Option<Token>)
    ensures
        opt_token(r) == mark(c),
{
    if c == '+' {
        Some(Token::Plus)
    } else if c == '-' {
        Some(Token::Minus)
    } else if c == '*' {
        Some(Token::Star)
    } else if c == '/' {
        Some(Token::Slash)
    } else if c == '%' {
        Some(Token::Percent)
    } else if c == '^' {
        Some(Token::Caret)
    } else if c == '(' {
        Some(Token::LParen)
    } else if c == ')' {
        Some(Token::RParen)
    } else if c == ',' {
        Some(Token::Comma)
    } else {
        None
    }
}

/// A character of a number before its exponent.
pub open spec fn in_mantissa(c: char) -> bool {
    text::is_digit(c) || c == '.'
}

/// A character of a name.
pub open spec fn in_name(c: char) -> bool {
    is_letter_or_number(c) || c == '_'
}

/// Where the digits and points from `i` on end.
pub open spec fn mantissa_end(s: Seq<char>, i: int) -> int
    decreases s.len() - i,
{
    if 0 <= i < s.len() && in_mantissa(s[i]) {
        mantissa_end(s, i + 1)
    } else {
        i
    }
}

/// Where the digits from `i` on end.
pub open spec fn digits_end(s: Seq<char>, i: int) -> int
    decreases s.len() - i,
{
    if 0 <= i < s.len() && text::is_digit(s[i]) {
        digits_end(s, i + 1)
    } else {
        i
    }
}

/// Where the name from `i` on ends.
pub open spec fn name_end(s: Seq<char>, i: int) -> int
    decreases s.len() - i,
{
    if 0 <= i < s.len() && in_name(s[i]) {
        name_end(s, i + 1)
    } else {
        i
    }
}

/// Where a number whose mantissa ends at `m` ends: an `e` takes a sign and digits
/// with it.
pub open spec fn number_end(s: Seq<char>, m: int) -> int {
    if m < s.len() && (s[m] == 'e' || s[m] == 'E') {
        let k = if m + 1 < s.len() && (s[m + 1] == '+' || s[m + 1] == '-') {
            m + 2
        } else {
            m + 1
        };
        digits_end(s, k)
    } else {
        m
    }
}

/// How many points stand before the `n`-th character from `i` on.
pub open spec fn points(s: Seq<char>, i: int, n: int) -> int
    decreases n,
{
    if n <= 0 {
        0
    } else {
        points(s, i, n - 1) + (if s[i + n - 1] == '.' {
            1int
        } else {
            0
        })
    }
}

/// What stands from `i` to `end`, with its mantissa up to `m`, is a number: one point
/// at most, a digit in the mantissa, and a digit behind an `e`.
pub open spec fn is_number(s: Seq<char>, i: int, m: int, end: int) -> bool {
    &&& points(s, i, m - i) <= 1
    &&& points(s, i, m - i) < m - i
    &&& end == m || text::is_digit(s[end - 1])
}

fn find_mantissa_end(v: &Vec<char>, i: usize) -> (r: usize)
    requires
        i <= v.len(),
    ensures
        r == mantissa_end(v@, i as int),
        i <= r <= v.len(),
        i < v.len() && in_mantissa(v@[i as int]) ==> i < r,
{
    let mut k: usize = i;
    while k < v.len() && (('0' <= v[k] && v[k] <= '9') || v[k] == '.')
        invariant
            i <= k <= v.len(),
            mantissa_end(v@, k as int) == mantissa_end(v@, i as int),
        decreases v.len() - k,
    {
        k = k + 1;
    }
    k
}

fn find_digits_end(v: &Vec<char>, i: usize) -> (r: usize)
    requires
        i <= v.len(),
    ensures
        r == digits_end(v@, i as int),
        i <= r <= v.len(),
{
    let mut k: usize = i;
    while k < v.len() && '0' <= v[k] && v[k] <= '9'
        invariant
            i <= k <= v.len(),
            digits_end(v@, k as int) == digits_end(v@, i as int),
        decreases v.len() - k,
    {
        k = k + 1;
    }
    k
}

fn find_name_end(v: &Vec<char>, i: usize) -> (r: usize)
    requires
        i <= v.len(),
    ensures
        r == name_end(v@, i as int),
        i <= r <= v.len(),
        i < v.len() && (is_letter(v@[i as int]) || v@[i as int] == '_') ==> i < r,
{
    if i >= v.len() || !(letter_or_number(v[i]) || v[i] == '_') {
        return i;
    }
    let mut k: usize = i + 1;
    while k < v.len() && (letter_or_number(v[k]) || v[k] == '_')
        invariant
            i < k <= v.len(),
            name_end(v@, k as int) == name_end(v@, i as int),
        decreases v.len() - k,
    {
        k = k + 1;
    }
    k
}

fn find_number_end(v: &Vec<char>, m: usize) -> (r: usize)
    requires
        m <= v.len(),
    ensures
        r == number_end(v@, m as int),
        m <= r <= v.len(),
{
    if m < v.len() && (v[m] == 'e' || v[m] == 'E') {
        if m + 1 < v.len() && (v[m + 1] == '+' || v[m + 1] == '-') {
            find_digits_end(v, m + 2)
        } else {
            find_digits_end(v, m + 1)
        }
    } else {
        m
    }
}

fn number_holds(v: &Vec<char>, i: usize, m: usize, end: usize) -> (r: bool)
    requires
        i <= m <= end <= v.len(),
    ensures
        r == is_number(v@, i as int, m as int, end as int),
{
    let mut found: usize = 0;
    let mut n: usize = 0;
    while n < m - i
        invariant
            i <= m <= v.len(),
            n <= m - i,
            found <= n,
            found == points(v@, i as int, n as int),
        decreases m - i - n,
    {
        if v[i + n] == '.' {
            found = found + 1;
        }
        n = n + 1;
    }
    found <= 1 && found < m - i && (end == m || ('0' <= v[end - 1] && v[end - 1] <= '9'))
}

// ---------- tokens ----------

/// What begins at a place: a blank or a token, and where the next one begins; or what
/// is wrong there.
pub enum Piece {
    Blank(int),
    Token(TokenView, int),
    Wrong(CalcErrorView),
}

/// What begins at `i`.
pub open spec fn piece(s: Seq<char>, i: int) -> Piece {
    let c = s[i];
    if text::is_white(c) {
        Piece::Blank(i + 1)
    } else if mark(c) is Some {
        Piece::Token(mark(c)->0, i + 1)
    } else if in_mantissa(c) {
        let m = mantissa_end(s, i);
        let end = number_end(s, m);
        let written = s.subrange(i, end);
        if is_number(s, i, m, end) {
            Piece::Token(TokenView::Number(written), end)
        } else {
            Piece::Wrong(CalcErrorView::BadNumber(written))
        }
    } else if is_letter(c) || c == '_' {
        let end = name_end(s, i);
        Piece::Token(TokenView::Ident(text::lowercase(s.subrange(i, end))), end)
    } else {
        Piece::Wrong(CalcErrorView::UnknownChar(c))
    }
}

/// The tokens from `i` on, behind those already found. (A token always moves on; the
/// last branch is never taken.)
pub open spec fn tokens_from(s: Seq<char>, i: int, before: Seq<TokenView>) -> Result<
    Seq<TokenView>,
    CalcErrorView,
>
    decreases s.len() - i,
{
    if i < 0 || i >= s.len() {
        Ok(before)
    } else {
        match piece(s, i) {
            Piece::Blank(next) => tokens_from(s, next, before),
            Piece::Token(t, next) => if i < next <= s.len() {
                tokens_from(s, next, before.push(t))
            } else {
                arbitrary()
            },
            Piece::Wrong(e) => Err(e),
        }
    }
}

/// The tokens of an expression, or the first thing that is wrong with one of them.
pub open spec fn tokens_of(s: Seq<char>) -> Result<Seq<TokenView>, CalcErrorView> {
    tokens_from(s, 0, Seq::empty())
}

/// The tokens of an expression.
pub fn tokenize(input: &str) -> (r: Result<Vec<Token>, CalcError>)
    ensures
        match r {
            Ok(v) => tokens_of(input@) == Ok::<Seq<TokenView>, CalcErrorView>(token_views(v@)),
            Err(e) => tokens_of(input@) == Err::<Seq<TokenView>, CalcErrorView>(e@),
        },
{
    let v: Vec<char> = text::chars_of(input);
    let mut out: Vec<Token> = Vec::new();
    let mut i: usize = 0;
    assert(token_views(out@) =~= Seq::<TokenView>::empty());
    while i < v.len()
        invariant
            i <= v.len(),
            v@ == input@,
            tokens_of(input@) == tokens_from(v@, i as int, token_views(out@)),
        decreases v.len() - i,
    {
        let c: char = v[i];
        let ghost before = token_views(out@);
        if text::white(c) {
            i = i + 1;
        } else {
            match mark_token(c) {
                Some(t) => {
                    out.push(t);
                    assert(token_views(out@) =~= before.push(t@));
                    i = i + 1;
                },
                None => if ('0' <= c && c <= '9') || c == '.' {
                    let m: usize = find_mantissa_end(&v, i);
                    let end: usize = find_number_end(&v, m);
                    let written: String = text::slice(&v, i, end);
                    if !number_holds(&v, i, m, end) {
                        return Err(CalcError::BadNumber(written));
                    }
                    out.push(Token::Number(written));
                    assert(token_views(out@) =~= before.push(TokenView::Number(written@)));
                    i = end;
                } else if letter(c) || c == '_' {
                    let end: usize = find_name_end(&v, i);
                    let name: String = text::to_lower(text::slice(&v, i, end).as_str());
                    out.push(Token::Ident(name));
                    assert(token_views(out@) =~= before.push(TokenView::Ident(name@)));
                    i = end;
                } else {
                    return Err(CalcError::UnknownChar(c));
                },
            }
        }
    }
    Ok(out)
}

// ---------- what is said of an error ----------

/// A token as it is named in a message; `number` stands for the value of a number.
pub open spec fn token_name(t: TokenView, number: Seq<char>) -> Seq<char> {
    match t {
        TokenView::Number(_) => "Number("@ + number + ")"@,
        TokenView::Ident(s) => "Ident("@ + quoted(s) + ")"@,
        TokenView::Plus => "Plus"@,
        TokenView::Minus => "Minus"@,
        TokenView::Star => "Star"@,
        TokenView::Slash => "Slash"@,
        TokenView::Percent => "Percent"@,
        TokenView::Caret => "Caret"@,
        TokenView::LParen => "LParen"@,
        TokenView::RParen => "RParen"@,
        TokenView::Comma => "Comma"@,
    }
}

/// What was found in place of a token.
pub open spec fn found_name(t: Option<TokenView>, number: Seq<char>) -> Seq<char> {
    match t {
        Some(t) => "Some("@ + token_name(t, number) + ")"@,
        None => "None"@,
    }
}

fn name_token(t: &Token, number: &str) -> (r: String)
    ensures
        r@ == token_name(t@, number@),
{
    match t {
        Token::Number(_) => text::cat3("Number(", number, ")"),
        Token::Ident(s) => text::cat3("Ident(", quote(s.as_str()).as_str(), ")"),
        Token::Plus => text::owned("Plus"),
        Token::Minus => text::owned("Minus"),
        Token::Star => text::owned("Star"),
        Token::Slash => text::owned("Slash"),
        Token::Percent => text::owned("Percent"),
        Token::Caret => text::owned("Caret"),
        Token::LParen => text::owned("LParen"),
        Token::RParen => text::owned("RParen"),
        Token::Comma => text::owned("Comma"),
    }
}

fn name_found(t: &Option<Token>, number: &str) -> (r: String)
    ensures
        r@ == found_name(opt_token(*t), number@),
{
    match t {
        Some(t) => text::cat3("Some(", name_token(t, number).as_str(), ")"),
        None => text::owned("None"),
    }
}

/// What is said of an error.
pub open spec fn error_text(e: CalcErrorView, number: Seq<char>, loc: Locale) -> Seq<char> {
    match e {
        CalcErrorView::BadNumber(s) => loc.text1("calc.err.bad_number"@, "s"@, s),
        CalcErrorView::UnknownChar(c) => loc.text1("calc.err.unknown_char"@, "c"@, seq![c]),
        CalcErrorView::Unexpected(t) => loc.text1(
            "calc.err.unexpected_token"@,
            "token"@,
            found_name(t, number),
        ),
        CalcErrorView::Expected(t) => loc.text2(
            "calc.err.expected"@,
            "want"@,
            "RParen"@,
            "found"@,
            found_name(t, number),
        ),
        CalcErrorView::UnknownConst(s) => loc.text1("calc.err.unknown_const"@, "name"@, s),
        CalcErrorView::ArityOne(s, n) => loc.text2(
            "calc.err.arity_one"@,
            "name"@,
            s,
            "n"@,
            text::decimal(n),
        ),
        CalcErrorView::ArityTwo(s, n) => loc.text2(
            "calc.err.arity_two"@,
            "name"@,
            s,
            "n"@,
            text::decimal(n),
        ),
        CalcErrorView::NeedsArgs(s) => loc.text1("calc.err.needs_args"@, "name"@, s),
        CalcErrorView::UnknownFunc(s) => loc.text1("calc.err.unknown_func"@, "name"@, s),
        CalcErrorView::Empty => loc.text("calc.err.empty"@),
        CalcErrorView::ExtraTokens => loc.text("calc.err.extra_tokens"@),
    }
}

/// The number that the error is about, as it is written in the expression.
pub open spec fn number_in(e: CalcErrorView) -> Option<Seq<char>> {
    match e {
        CalcErrorView::Unexpected(Some(TokenView::Number(s))) => Some(s),
        CalcErrorView::Expected(Some(TokenView::Number(s))) => Some(s),
        _ => None,
    }
}

impl CalcError {
    /// What is said of the error. Where it is about a number, `number` is how the
    /// value of that number is written.
    pub fn text(&self, number: &str, loc: &Locale) -> (r: String)
        ensures
            r@ == error_text(self@, number@, *loc),
    {
        match self {
            CalcError::BadNumber(s) => loc.tf1("calc.err.bad_number", "s", s.as_str()),
            CalcError::UnknownChar(c) => {
                let mut one: String = String::new();
                one.push(*c);
                assert(one@ =~= seq![*c]);
                loc.tf1("calc.err.unknown_char", "c", one.as_str())
            },
            CalcError::Unexpected(t) => {
                let found: String = name_found(t, number);
                loc.tf1("calc.err.unexpected_token", "token", found.as_str())
            },
            CalcError::Expected(t) => {
                let found: String = name_found(t, number);
                loc.tf2("calc.err.expected", "want", "RParen", "found", found.as_str())
            },
            CalcError::UnknownConst(s) => loc.tf1("calc.err.unknown_const", "name", s.as_str()),
            CalcError::ArityOne(s, n) => {
                let shown: String = text::dec_usize(*n);
                loc.tf2("calc.err.arity_one", "name", s.as_str(), "n", shown.as_str())
            },
            CalcError::ArityTwo(s, n) => {
                let shown: String = text::dec_usize(*n);
                loc.tf2("calc.err.arity_two", "name", s.as_str(), "n", shown.as_str())
            },
            CalcError::NeedsArgs(s) => loc.tf1("calc.err.needs_args", "name", s.as_str()),
            CalcError::UnknownFunc(s) => loc.tf1("calc.err.unknown_func", "name", s.as_str()),
            CalcError::Empty => text::owned(loc.t("calc.err.empty")),
            CalcError::ExtraTokens => text::owned(loc.t("calc.err.extra_tokens")),
        }
    }

    /// The number that the error is about, as it is written in the expression.
    pub fn number(&self) -> (r: Option<String>)
        ensures
            crate::json::opt_str(r) == number_in(self@),
    {
        match self {
            CalcError::Unexpected(Some(Token::Number(s))) => Some(s.clone()),
            CalcError::Expected(Some(Token::Number(s))) => Some(s.clone()),
            _ => None,
        }
    }
}

} // verus!
