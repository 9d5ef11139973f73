//! `calculate`: the value of an expression.
//!
//! An expression is split into tokens ([`lex`]) and brought into postfix order
//! ([`parse`]): arithmetic `+ - * / %`, powers `^` that associate to the right, unary
//! minus, brackets, the constants `pi`, `e` and `tau`, and functions. Everything that
//! can be wrong with an expression is found there. Working the postfix program out is
//! a walk over a stack of numbers.

use vstd::prelude::*;
use crate::i18n::Locale;
use crate::json::{Json, JsonView};
use crate::outcome::ToolOutcome;
use crate::text;

pub mod expression;
pub mod functions;
pub mod lex;
pub mod parse;
pub mod spelling;

use crate::calc::lex::{CalcError, Token};
use crate::calc::parse::Step;

verus! {

pub const CALCULATE_ID: &'static str = "calculate";

/// `calculate`.
pub struct Calculate;

/// What an expression comes to before any number is worked out.
pub open spec fn compiled(input: Seq<char>) -> Result<Seq<parse::StepView>, lex::CalcErrorView> {
    match lex::tokens_of(input) {
        Err(e) => Err(e),
        Ok(t) => if t.len() == 0 {
            Err(lex::CalcErrorView::Empty)
        } else {
            match parse::sum(t, 0) {
                Err(e) => Err(e),
                Ok(done) => if done.1 == t.len() {
                    Ok(done.0)
                } else {
                    Err(lex::CalcErrorView::ExtraTokens)
                },
            }
        },
    }
}

/// The postfix program of an expression.
pub fn compile(input: &str) -> (r: Result<Vec<Step>, CalcError>)
    ensures
        match r {
            Ok(code) => compiled(input@) == Ok::<Seq<parse::StepView>, lex::CalcErrorView>(
                parse::step_views(code@),
            ),
            Err(e) => compiled(input@) == Err::<Seq<parse::StepView>, lex::CalcErrorView>(e@),
        },
{
    let tokens: Vec<Token> = match lex::tokenize(input) {
        Ok(t) => t,
        Err(e) => {
            return Err(e);
        },
    };
    assert(lex::token_views(tokens@).len() == tokens@.len());
    if tokens.len() == 0 {
        return Err(CalcError::Empty);
    }
    match parse::expr(&tokens, 0) {
        Err(e) => Err(e),
        Ok((code, next)) => if next != tokens.len() {
            Err(CalcError::ExtraTokens)
        } else {
            Ok(code)
        },
    }
}

/// Working a program out never runs short of numbers, and leaves exactly one: the
/// value of the expression.
pub proof fn a_program_leaves_one_value(input: Seq<char>)
    ensures
        compiled(input) matches Ok(code) ==> parse::depth_after(code, 0) == Some(1int),
{
    match lex::tokens_of(input) {
        Err(e) => {},
        Ok(t) => {
            parse::sum_leaves_one(t, 0, 0);
        },
    }
}

// ---------- the answer ----------

/// A number worked out, as far as it decides how it is written.
#[derive(Debug)]
pub enum Figure {
    NotANumber,
    Infinite { negative: bool },
    /// A whole number below `10^15` in size.
    Whole(i64),
    /// Any other, in plain decimal notation with [`decimal_places`].
    Fixed(String),
}

/// How many digits of a number that is not whole are shown at most, and how many of them
/// after the point.
pub const SHOWN_DIGITS: i32 = 12;

/// How many places after the point a number has that is not whole, by the power of ten
/// of its first digit.
pub open spec fn places_of(exponent: int) -> int {
    if exponent < 0 {
        SHOWN_DIGITS as int
    } else if exponent < SHOWN_DIGITS {
        SHOWN_DIGITS - 1 - exponent
    } else {
        0
    }
}

/// How many places after the point a number has that is not whole, by the power of ten
/// of its first digit: with those before the point no more than [`SHOWN_DIGITS`].
pub fn decimal_places(exponent: i32) -> (r: usize)
    ensures
        r == places_of(exponent as int),
        0 <= exponent < SHOWN_DIGITS ==> exponent + 1 + r == SHOWN_DIGITS,
{
    if exponent < 0 {
        12
    } else if exponent < SHOWN_DIGITS {
        (SHOWN_DIGITS - 1 - exponent) as usize
    } else {
        0
    }
}

/// The text without the characters `c` at its end.
pub open spec fn without_trailing(s: Seq<char>, c: char) -> Seq<char>
    decreases s.len(),
{
    if s.len() > 0 && s.last() == c {
        without_trailing(s.drop_last(), c)
    } else {
        s
    }
}

fn trim_trailing(s: &str, c: char) -> (r: String)
    ensures
        r@ == without_trailing(s@, c),
{
    let v: Vec<char> = text::chars_of(s);
    let mut n: usize = v.len();
    assert(v@.take(n as int) =~= s@);
    while n > 0 && v[n - 1] == c
        invariant
            n <= v.len(),
            without_trailing(v@.take(n as int), c) == without_trailing(s@, c),
        decreases n,
    {
        assert(v@.take(n as int).drop_last() =~= v@.take(n - 1));
        n = n - 1;
    }
    assert(v@.subrange(0, n as int) =~= v@.take(n as int));
    text::slice(&v, 0, n)
}

/// A decimal number without the zeros at the end of its fraction.
pub open spec fn without_idle_zeros(s: Seq<char>) -> Seq<char> {
    if s.contains('.') {
        without_trailing(without_trailing(s, '0'), '.')
    } else {
        s
    }
}

/// A number as it is written: a whole one without a fraction, any other without the
/// zeros at the end of its fraction.
pub open spec fn figure_text(f: Figure, loc: Locale) -> Seq<char> {
    match f {
        Figure::NotANumber => loc.text("calc.number.nan"@),
        Figure::Infinite { negative } => if negative {
            "-∞"@
        } else {
            "∞"@
        },
        Figure::Whole(n) => text::decimal_signed(n as int),
        Figure::Fixed(s) => without_idle_zeros(s@),
    }
}

/// A number as it is written.
pub fn format_number(f: &Figure, loc: &Locale) -> (r: String)
    ensures
        r@ == figure_text(*f, *loc),
{
    match f {
        Figure::NotANumber => text::owned(loc.t("calc.number.nan")),
        Figure::Infinite { negative } => if *negative {
            text::owned("-∞")
        } else {
            text::owned("∞")
        },
        Figure::Whole(n) => text::dec_signed_wide(*n),
        Figure::Fixed(s) => match text::after_last(s.as_str(), '.') {
            Some(_) => {
                proof {
                    text::last_index_is_there(s@, '.');
                }
                let no_zeros: String = trim_trailing(s.as_str(), '0');
                trim_trailing(no_zeros.as_str(), '.')
            },
            None => {
                proof {
                    text::last_index_is_there(s@, '.');
                }
                s.clone()
            },
        },
    }
}

/// The expression of a call; nothing where there is none, or only blanks.
pub open spec fn expression_of(args: JsonView) -> Option<Seq<char>> {
    match args.str_at("expression"@) {
        Some(s) => if text::trimmed(s).len() > 0 {
            Some(s)
        } else {
            None
        },
        None => None,
    }
}

impl Calculate {
    /// The expression of a call. A call without one is wrong.
    pub fn arguments(&self, args: &Json, loc: &Locale) -> (r: Result<String, String>)
        ensures
            match r {
                Ok(s) => expression_of(args@) == Some(s@),
                Err(e) => expression_of(args@) is None && e@ == loc.text(
                    "tool.calculate.err.expr_empty"@,
                ),
            },
    {
        match args.get_str("expression") {
            Some(s) => {
                let inner: String = text::trim(s.as_str());
                if inner.as_str().is_empty() {
                    Err(text::owned(loc.t("tool.calculate.err.expr_empty")))
                } else {
                    Ok(s)
                }
            },
            None => Err(text::owned(loc.t("tool.calculate.err.expr_empty"))),
        }
    }

    /// The answer: the expression and its value, or what is wrong with it.
    pub fn outcome(&self, expr: &str, value: &Result<Figure, String>, loc: &Locale) -> (r:
        ToolOutcome)
        ensures
            r.says(
                match *value {
                    Ok(f) => expr@ + " = "@ + figure_text(f, *loc),
                    Err(e) => loc.text2(
                        "tool.calculate.result.failed"@,
                        "expr"@,
                        expr@,
                        "err"@,
                        e@,
                    ),
                },
            ),
    {
        match value {
            Ok(f) => {
                let shown: String = format_number(f, loc);
                ToolOutcome::text(text::cat3(expr, " = ", shown.as_str()))
            },
            Err(e) => ToolOutcome::text(
                loc.tf2("tool.calculate.result.failed", "expr", expr, "err", e.as_str()),
            ),
        }
    }
}

} // verus!
