//! Expressions brought into postfix order.
//!
//! ```text
//! sum     = product (('+' | '-') product)*
//! product = power (('*' | '/' | '%') power)*
//! power   = signed ('^' power)?
//! signed  = ('-' | '+') signed | item
//! item    = number | constant | function '(' sum (',' sum)* ')' | '(' sum ')'
//! ```

use vstd::prelude::*;
use crate::calc::lex::{CalcError, CalcErrorView, Token, TokenView};
use crate::text;

verus! {

/// The constants.
#[derive(Debug, Clone, Copy, PartialEq, Eq, Structural)]
pub enum Constant {
    Pi,
    E,
    Tau,
}

/// The functions.
#[derive(Debug, Clone, Copy, PartialEq, Eq, Structural)]
pub enum Function {
    Sqrt,
    Cbrt,
    Abs,
    Exp,
    Ln,
    Log2,
    /// Of one number to the base ten, of two to the base that the second gives.
    Log,
    Sin,
    Cos,
    Tan,
    Asin,
    Acos,
    Atan,
    Atan2,
    Sinh,
    Cosh,
    Tanh,
    Floor,
    Ceil,
    Round,
    Pow,
    Min,
    Max,
}

/// How many numbers a function takes.
#[derive(Debug, Clone, Copy, PartialEq, Eq, Structural)]
pub enum Arity {
    One,
    Two,
    OneOrTwo,
    AtLeastOne,
}

/// The functions by name.
pub const FUNCTIONS: [(&'static str, Function, Arity); 24] = [
    ("sqrt", Function::Sqrt, Arity::One),
    ("cbrt", Function::Cbrt, Arity::One),
    ("abs", Function::Abs, Arity::One),
    ("exp", Function::Exp, Arity::One),
    ("ln", Function::Ln, Arity::One),
    ("log2", Function::Log2, Arity::One),
    ("log", Function::Log, Arity::OneOrTwo),
    ("log10", Function::Log, Arity::OneOrTwo),
    ("sin", Function::Sin, Arity::One),
    ("cos", Function::Cos, Arity::One),
    ("tan", Function::Tan, Arity::One),
    ("asin", Function::Asin, Arity::One),
    ("acos", Function::Acos, Arity::One),
    ("atan", Function::Atan, Arity::One),
    ("atan2", Function::Atan2, Arity::Two),
    ("sinh", Function::Sinh, Arity::One),
    ("cosh", Function::Cosh, Arity::One),
    ("tanh", Function::Tanh, Arity::One),
    ("floor", Function::Floor, Arity::One),
    ("ceil", Function::Ceil, Arity::One),
    ("round", Function::Round, Arity::One),
    ("pow", Function::Pow, Arity::Two),
    ("min", Function::Min, Arity::AtLeastOne),
    ("max", Function::Max, Arity::AtLeastOne),
];

/// A step of a program: it takes numbers from the top of a stack and puts one there.
#[derive(Debug)]
pub enum Step {
    /// Puts this number there, given as it is written.
    Number(String),
    Constant(Constant),
    Negate,
    Sum,
    Difference,
    Product,
    Quotient,
    Remainder,
    Power,
    /// Takes so many numbers for a function.
    Call(Function, usize),
}

/// What a [`Step`] holds.
pub enum StepView {
    Number(Seq<char>),
    Constant(Constant),
    Negate,
    Sum,
    Difference,
    Product,
    Quotient,
    Remainder,
    Power,
    Call(Function, int),
}

impl View for Step {
    type V = StepView;

    open spec fn view(&self) -> StepView {
        match *self {
            Step::Number(s) => StepView::Number(s@),
            Step::Constant(c) => StepView::Constant(c),
            Step::Negate => StepView::Negate,
            Step::Sum => StepView::Sum,
            Step::Difference => StepView::Difference,
            Step::Product => StepView::Product,
            Step::Quotient => StepView::Quotient,
            Step::Remainder => StepView::Remainder,
            Step::Power => StepView::Power,
            Step::Call(f, n) => StepView::Call(f, n as int),
        }
    }
}

pub open spec fn step_views(v: Seq<Step>) -> Seq<StepView> {
    v.map_values(|s: Step| s@)
}

// ---------- names ----------

/// The row of a function, from `i` on; past the end where there is none.
pub open spec fn row_from(name: Seq<char>, i: int) -> int
    decreases FUNCTIONS@.len() - i,
{
    if i < 0 || i >= FUNCTIONS@.len() || FUNCTIONS@[i].0@ == name {
        i
    } else {
        row_from(name, i + 1)
    }
}

/// The function that a name and a number of arguments call for.
pub open spec fn called(name: Seq<char>, n: int) -> Result<Function, CalcErrorView> {
    let i = row_from(name, 0);
    if i >= FUNCTIONS@.len() {
        Err(CalcErrorView::UnknownFunc(name))
    } else {
        let f = FUNCTIONS@[i].1;
        match FUNCTIONS@[i].2 {
            Arity::One => if n == 1 {
                Ok(f)
            } else {
                Err(CalcErrorView::ArityOne(name, n as nat))
            },
            Arity::Two => if n == 2 {
                Ok(f)
            } else {
                Err(CalcErrorView::ArityTwo(name, n as nat))
            },
            Arity::OneOrTwo => if n == 1 || n == 2 {
                Ok(f)
            } else {
                Err(CalcErrorView::ArityOne(name, n as nat))
            },
            Arity::AtLeastOne => if n > 0 {
                Ok(f)
            } else {
                Err(CalcErrorView::NeedsArgs(name))
            },
        }
    }
}

/// The function that a name and a number of arguments call for.
pub fn apply_function(name: &str, n: usize) -> (r: Result<Function, CalcError>)
    ensures
        match r {
            Ok(f) => called(name@, n as int) == Ok::<Function, CalcErrorView>(f),
            Err(e) => called(name@, n as int) == Err::<Function, CalcErrorView>(e@),
        },
{
    let mut i: usize = 0;
    while i < FUNCTIONS.len()
        invariant
            i <= FUNCTIONS@.len(),
            FUNCTIONS@.len() == 24,
            row_from(name@, i as int) == row_from(name@, 0),
        decreases FUNCTIONS@.len() - i,
    {
        let row: (&'static str, Function, Arity) = FUNCTIONS[i];
        if text::same(row.0, name) {
            assert(row_from(name@, 0) == i);
            let f: Function = row.1;
            return match row.2 {
                Arity::One => if n == 1 {
                    Ok(f)
                } else {
                    Err(CalcError::ArityOne(text::owned(name), n))
                },
                Arity::Two => if n == 2 {
                    Ok(f)
                } else {
                    Err(CalcError::ArityTwo(text::owned(name), n))
                },
                Arity::OneOrTwo => if n == 1 || n == 2 {
                    Ok(f)
                } else {
                    Err(CalcError::ArityOne(text::owned(name), n))
                },
                Arity::AtLeastOne => if n > 0 {
                    Ok(f)
                } else {
                    Err(CalcError::NeedsArgs(text::owned(name)))
                },
            };
        }
        i = i + 1;
    }
    Err(CalcError::UnknownFunc(text::owned(name)))
}

/// The constant of a name.
pub open spec fn constant_of(name: Seq<char>) -> Result<Constant, CalcErrorView> {
    if name == "pi"@ {
        Ok(Constant::Pi)
    } else if name == "e"@ {
        Ok(Constant::E)
    } else if name == "tau"@ {
        Ok(Constant::Tau)
    } else {
        Err(CalcErrorView::UnknownConst(name))
    }
}

/// The constant of a name.
pub fn constant(name: &str) -> (r: Result<Constant, CalcError>)
    ensures
        match r {
            Ok(c) => constant_of(name@) == Ok::<Constant, CalcErrorView>(c),
            Err(e) => constant_of(name@) == Err::<Constant, CalcErrorView>(e@),
        },
{
    if text::same(name, "pi") {
        Ok(Constant::Pi)
    } else if text::same(name, "e") {
        Ok(Constant::E)
    } else if text::same(name, "tau") {
        Ok(Constant::Tau)
    } else {
        Err(CalcError::UnknownConst(text::owned(name)))
    }
}

// ---------- the grammar ----------

/// The token at a place, where there is one.
pub open spec fn token_at(t: Seq<TokenView>, pos: int) -> Option<TokenView> {
    if 0 <= pos < t.len() {
        Some(t[pos])
    } else {
        None
    }
}

/// The step of a sign between two products.
pub open spec fn sum_sign(t: Option<TokenView>) -> Option<StepView> {
    match t {
        Some(TokenView::Plus) => Some(StepView::Sum),
        Some(TokenView::Minus) => Some(StepView::Difference),
        _ => None,
    }
}

/// The step of a sign between two powers.
pub open spec fn product_sign(t: Option<TokenView>) -> Option<StepView> {
    match t {
        Some(TokenView::Star) => Some(StepView::Product),
        Some(TokenView::Slash) => Some(StepView::Quotient),
        Some(TokenView::Percent) => Some(StepView::Remainder),
        _ => None,
    }
}

/// The sum that begins at `pos`, and where it ends. (What is read always moves on;
/// the last branch is never taken.)
pub open spec fn sum(t: Seq<TokenView>, pos: int) -> Result<(Seq<StepView>, int), CalcErrorView>
    decreases t.len() - pos, 5int,
{
    match product(t, pos) {
        Err(e) => Err(e),
        Ok(first) => if pos < first.1 <= t.len() {
            sum_rest(t, first.0, first.1)
        } else {
            arbitrary()
        },
    }
}

/// What follows the first product of a sum.
pub open spec fn sum_rest(t: Seq<TokenView>, code: Seq<StepView>, pos: int) -> Result<
    (Seq<StepView>, int),
    CalcErrorView,
>
    decreases t.len() - pos, 0int,
{
    match sum_sign(token_at(t, pos)) {
        None => Ok((code, pos)),
        Some(op) => match product(t, pos + 1) {
            Err(e) => Err(e),
            Ok(next) => if pos + 1 < next.1 <= t.len() {
                sum_rest(t, code + next.0 + seq![op], next.1)
            } else {
                arbitrary()
            },
        },
    }
}

/// The product that begins at `pos`, and where it ends.
pub open spec fn product(t: Seq<TokenView>, pos: int) -> Result<(Seq<StepView>, int), CalcErrorView>
    decreases t.len() - pos, 4int,
{
    match power(t, pos) {
        Err(e) => Err(e),
        Ok(first) => if pos < first.1 <= t.len() {
            product_rest(t, first.0, first.1)
        } else {
            arbitrary()
        },
    }
}

/// What follows the first power of a product.
pub open spec fn product_rest(t: Seq<TokenView>, code: Seq<StepView>, pos: int) -> Result<
    (Seq<StepView>, int),
    CalcErrorView,
>
    decreases t.len() - pos, 0int,
{
    match product_sign(token_at(t, pos)) {
        None => Ok((code, pos)),
        Some(op) => match power(t, pos + 1) {
            Err(e) => Err(e),
            Ok(next) => if pos + 1 < next.1 <= t.len() {
                product_rest(t, code + next.0 + seq![op], next.1)
            } else {
                arbitrary()
            },
        },
    }
}

/// The power that begins at `pos`, and where it ends: the exponent is a power itself.
pub open spec fn power(t: Seq<TokenView>, pos: int) -> Result<(Seq<StepView>, int), CalcErrorView>
    decreases t.len() - pos, 3int,
{
    match signed(t, pos) {
        Err(e) => Err(e),
        Ok(base) => if token_at(t, base.1) == Some(TokenView::Caret) {
            if pos < base.1 {
                match power(t, base.1 + 1) {
                    Err(e) => Err(e),
                    Ok(exp) => Ok((base.0 + exp.0 + seq![StepView::Power], exp.1)),
                }
            } else {
                arbitrary()
            }
        } else {
            Ok(base)
        },
    }
}

/// The item that begins at `pos` behind its signs, and where it ends.
pub open spec fn signed(t: Seq<TokenView>, pos: int) -> Result<(Seq<StepView>, int), CalcErrorView>
    decreases t.len() - pos, 2int,
{
    match token_at(t, pos) {
        Some(TokenView::Minus) => match signed(t, pos + 1) {
            Err(e) => Err(e),
            Ok(x) => Ok((x.0 + seq![StepView::Negate], x.1)),
        },
        Some(TokenView::Plus) => signed(t, pos + 1),
        _ => item(t, pos),
    }
}

/// The item that begins at `pos`, and where it ends.
pub open spec fn item(t: Seq<TokenView>, pos: int) -> Result<(Seq<StepView>, int), CalcErrorView>
    decreases t.len() - pos, 1int,
{
    match token_at(t, pos) {
        Some(TokenView::Number(s)) => Ok((seq![StepView::Number(s)], pos + 1)),
        Some(TokenView::LParen) => match sum(t, pos + 1) {
            Err(e) => Err(e),
            Ok(x) => if token_at(t, x.1) == Some(TokenView::RParen) {
                Ok((x.0, x.1 + 1))
            } else {
                Err(CalcErrorView::Expected(token_at(t, x.1)))
            },
        },
        Some(TokenView::Ident(name)) => if token_at(t, pos + 1) == Some(TokenView::LParen) {
            match sum(t, pos + 2) {
                Err(e) => Err(e),
                Ok(x) => if pos + 2 < x.1 <= t.len() {
                    match arguments_rest(t, x.0, 1, x.1) {
                        Err(e) => Err(e),
                        Ok(all) => if token_at(t, all.2) == Some(TokenView::RParen) {
                            match called(name, all.1) {
                                Err(e) => Err(e),
                                Ok(f) => Ok(
                                    (all.0 + seq![StepView::Call(f, all.1)], all.2 + 1),
                                ),
                            }
                        } else {
                            Err(CalcErrorView::Expected(token_at(t, all.2)))
                        },
                    }
                } else {
                    arbitrary()
                },
            }
        } else {
            match constant_of(name) {
                Err(e) => Err(e),
                Ok(c) => Ok((seq![StepView::Constant(c)], pos + 1)),
            }
        },
        other => Err(CalcErrorView::Unexpected(other)),
    }
}

/// What follows the first `n` arguments of a function: all of them, how many they
/// are, and where they end.
pub open spec fn arguments_rest(
    t: Seq<TokenView>,
    code: Seq<StepView>,
    n: int,
    pos: int,
) -> Result<(Seq<StepView>, int, int), CalcErrorView>
    decreases t.len() - pos, 0int,
{
    if token_at(t, pos) == Some(TokenView::Comma) {
        match sum(t, pos + 1) {
            Err(e) => Err(e),
            Ok(x) => if pos + 1 < x.1 <= t.len() {
                arguments_rest(t, code + x.0, n + 1, x.1)
            } else {
                arbitrary()
            },
        }
    } else {
        Ok((code, n, pos))
    }
}

/// What a parser gives, against what the grammar says.
pub open spec fn agrees(
    r: Result<(Vec<Step>, usize), CalcError>,
    says: Result<(Seq<StepView>, int), CalcErrorView>,
) -> bool {
    match r {
        Ok(x) => says == Ok::<(Seq<StepView>, int), CalcErrorView>((step_views(x.0@), x.1 as int)),
        Err(e) => says == Err::<(Seq<StepView>, int), CalcErrorView>(e@),
    }
}

fn join_steps(a: Vec<Step>, b: Vec<Step>) -> (r: Vec<Step>)
    ensures
        step_views(r@) == step_views(a@) + step_views(b@),
{
    let mut r: Vec<Step> = a;
    let mut b: Vec<Step> = b;
    let ghost x = r@;
    let ghost y = b@;
    r.append(&mut b);
    assert(step_views(r@) =~= step_views(x) + step_views(y));
    r
}

fn add_step(a: Vec<Step>, s: Step) -> (r: Vec<Step>)
    ensures
        step_views(r@) == step_views(a@) + seq![s@],
{
    let mut r: Vec<Step> = a;
    let ghost x = r@;
    r.push(s);
    assert(step_views(r@) =~= step_views(x) + seq![s@]);
    r
}

fn one_step(s: Step) -> (r: Vec<Step>)
    ensures
        step_views(r@) == seq![s@],
{
    let mut r: Vec<Step> = Vec::new();
    r.push(s);
    assert(step_views(r@) =~= seq![s@]);
    r
}

fn peek(t: &Vec<Token>, pos: usize) -> (r: Option<Token>)
    ensures
        crate::calc::lex::opt_token(r) == token_at(crate::calc::lex::token_views(t@), pos as int),
        r is Some ==> pos < t.len(),
{
    if pos < t.len() {
        Some(t[pos].again())
    } else {
        None
    }
}

/// The sum that begins at `pos`, and where it ends.
pub fn expr(t: &Vec<Token>, pos: usize) -> (r: Result<(Vec<Step>, usize), CalcError>)
    ensures
        agrees(r, sum(crate::calc::lex::token_views(t@), pos as int)),
        r matches Ok(x) ==> pos < x.1 <= t.len(),
    decreases t.len() - pos, 5int,
{
    let ghost v = crate::calc::lex::token_views(t@);
    let (first, first_end) = match term(t, pos) {
        Ok(x) => x,
        Err(e) => {
            return Err(e);
        },
    };
    let mut code: Vec<Step> = first;
    let mut at: usize = first_end;
    while at < t.len()
        invariant
            pos < at <= t.len(),
            v == crate::calc::lex::token_views(t@),
            sum(v, pos as int) == sum_rest(v, step_views(code@), at as int),
        decreases t.len() - at,
    {
        let op: Step = match peek(t, at) {
            Some(Token::Plus) => Step::Sum,
            Some(Token::Minus) => Step::Difference,
            _ => {
                return Ok((code, at));
            },
        };
        match term(t, at + 1) {
            Ok((next, end)) => {
                code = add_step(join_steps(code, next), op);
                at = end;
            },
            Err(e) => {
                return Err(e);
            },
        }
    }
    Ok((code, at))
}

/// The product that begins at `pos`, and where it ends.
pub fn term(t: &Vec<Token>, pos: usize) -> (r: Result<(Vec<Step>, usize), CalcError>)
    ensures
        agrees(r, product(crate::calc::lex::token_views(t@), pos as int)),
        r matches Ok(x) ==> pos < x.1 <= t.len(),
    decreases t.len() - pos, 4int,
{
    let ghost v = crate::calc::lex::token_views(t@);
    let (first, first_end) = match factor(t, pos) {
        Ok(x) => x,
        Err(e) => {
            return Err(e);
        },
    };
    let mut code: Vec<Step> = first;
    let mut at: usize = first_end;
    while at < t.len()
        invariant
            pos < at <= t.len(),
            v == crate::calc::lex::token_views(t@),
            product(v, pos as int) == product_rest(v, step_views(code@), at as int),
        decreases t.len() - at,
    {
        let op: Step = match peek(t, at) {
            Some(Token::Star) => Step::Product,
            Some(Token::Slash) => Step::Quotient,
            Some(Token::Percent) => Step::Remainder,
            _ => {
                return Ok((code, at));
            },
        };
        match factor(t, at + 1) {
            Ok((next, end)) => {
                code = add_step(join_steps(code, next), op);
                at = end;
            },
            Err(e) => {
                return Err(e);
            },
        }
    }
    Ok((code, at))
}

/// The power that begins at `pos`, and where it ends.
pub fn factor(t: &Vec<Token>, pos: usize) -> (r: Result<(Vec<Step>, usize), CalcError>)
    ensures
        agrees(r, power(crate::calc::lex::token_views(t@), pos as int)),
        r matches Ok(x) ==> pos < x.1 <= t.len(),
    decreases t.len() - pos, 3int,
{
    let (base, end) = match unary(t, pos) {
        Ok(x) => x,
        Err(e) => {
            return Err(e);
        },
    };
    match peek(t, end) {
        Some(Token::Caret) => match factor(t, end + 1) {
            Ok((exp, last)) => Ok((add_step(join_steps(base, exp), Step::Power), last)),
            Err(e) => Err(e),
        },
        _ => Ok((base, end)),
    }
}

/// The item that begins at `pos` behind its signs, and where it ends.
pub fn unary(t: &Vec<Token>, pos: usize) -> (r: Result<(Vec<Step>, usize), CalcError>)
    ensures
        agrees(r, signed(crate::calc::lex::token_views(t@), pos as int)),
        r matches Ok(x) ==> pos < x.1 <= t.len(),
    decreases t.len() - pos, 2int,
{
    match peek(t, pos) {
        Some(Token::Minus) => match unary(t, pos + 1) {
            Ok((code, end)) => Ok((add_step(code, Step::Negate), end)),
            Err(e) => Err(e),
        },
        Some(Token::Plus) => unary(t, pos + 1),
        _ => atom(t, pos),
    }
}

/// The item that begins at `pos`, and where it ends.
pub fn atom(t: &Vec<Token>, pos: usize) -> (r: Result<(Vec<Step>, usize), CalcError>)
    ensures
        agrees(r, item(crate::calc::lex::token_views(t@), pos as int)),
        r matches Ok(x) ==> pos < x.1 <= t.len(),
    decreases t.len() - pos, 1int,
{
    match peek(t, pos) {
        Some(Token::Number(s)) => Ok((one_step(Step::Number(s)), pos + 1)),
        Some(Token::LParen) => match expr(t, pos + 1) {
            Ok((code, end)) => match expect_closing(t, end) {
                Ok(next) => Ok((code, next)),
                Err(e) => Err(e),
            },
            Err(e) => Err(e),
        },
        Some(Token::Ident(name)) => match peek(t, pos + 1) {
            Some(Token::LParen) => {
                let (code, n, end) = match call_arguments(t, pos + 2) {
                    Ok(x) => x,
                    Err(e) => {
                        return Err(e);
                    },
                };
                let next: usize = match expect_closing(t, end) {
                    Ok(next) => next,
                    Err(e) => {
                        return Err(e);
                    },
                };
                match apply_function(name.as_str(), n) {
                    Ok(f) => Ok((add_step(code, Step::Call(f, n)), next)),
                    Err(e) => Err(e),
                }
            },
            _ => match constant(name.as_str()) {
                Ok(c) => Ok((one_step(Step::Constant(c)), pos + 1)),
                Err(e) => Err(e),
            },
        },
        other => Err(CalcError::Unexpected(other)),
    }
}

/// The arguments that begin at `pos`: their steps, how many they are, and where they
/// end.
fn call_arguments(t: &Vec<Token>, pos: usize) -> (r: Result<(Vec<Step>, usize, usize), CalcError>)
    requires
        pos <= t.len(),
    ensures
        ({
            let v = crate::calc::lex::token_views(t@);
            let says = match sum(v, pos as int) {
                Err(e) => Err::<(Seq<StepView>, int, int), CalcErrorView>(e),
                Ok(x) => arguments_rest(v, x.0, 1, x.1),
            };
            match r {
                Ok(x) => says == Ok::<(Seq<StepView>, int, int), CalcErrorView>(
                    (step_views(x.0@), x.1 as int, x.2 as int),
                ) && pos < x.2 <= t.len() && (sum(v, pos as int) matches Ok(y) && pos < y.1
                    <= t.len()),
                Err(e) => says == Err::<(Seq<StepView>, int, int), CalcErrorView>(e@) && (sum(
                    v,
                    pos as int,
                ) matches Ok(y) ==> pos < y.1 <= t.len()),
            }
        }),
    decreases t.len() - pos, 6int,
{
    let ghost v = crate::calc::lex::token_views(t@);
    let (first, first_end) = match expr(t, pos) {
        Ok(x) => x,
        Err(e) => {
            return Err(e);
        },
    };
    let mut code: Vec<Step> = first;
    let mut n: usize = 1;
    let mut at: usize = first_end;
    let ghost all = arguments_rest(v, step_views(code@), 1, at as int);
    while at < t.len()
        invariant
            pos < at <= t.len(),
            pos < first_end <= t.len(),
            1 <= n <= at,
            v == crate::calc::lex::token_views(t@),
            sum(v, pos as int) matches Ok(y) && y.1 == first_end && all == arguments_rest(
                v,
                y.0,
                1,
                y.1,
            ),
            all == arguments_rest(v, step_views(code@), n as int, at as int),
        decreases t.len() - at,
    {
        match peek(t, at) {
            Some(Token::Comma) => {},
            _ => {
                return Ok((code, n, at));
            },
        }
        match expr(t, at + 1) {
            Ok((next, end)) => {
                code = join_steps(code, next);
                n = n + 1;
                at = end;
            },
            Err(e) => {
                return Err(e);
            },
        }
    }
    Ok((code, n, at))
}

fn expect_closing(t: &Vec<Token>, pos: usize) -> (r: Result<usize, CalcError>)
    ensures
        ({
            let found = token_at(crate::calc::lex::token_views(t@), pos as int);
            match r {
                Ok(next) => found == Some(TokenView::RParen) && next == pos + 1 && next <= t.len(),
                Err(e) => found != Some(TokenView::RParen) && e@ == CalcErrorView::Expected(found),
            }
        }),
{
    match peek(t, pos) {
        Some(Token::RParen) => Ok(pos + 1),
        other => Err(CalcError::Expected(other)),
    }
}

// ---------- working it out ----------

/// How many numbers a step takes.
pub open spec fn takes(s: StepView) -> int {
    match s {
        StepView::Number(_) => 0,
        StepView::Constant(_) => 0,
        StepView::Negate => 1,
        StepView::Call(_, n) => n,
        _ => 2,
    }
}

/// How many numbers are on the stack after a program that began with `depth` of them;
/// nothing where a step runs short.
pub open spec fn depth_after(code: Seq<StepView>, depth: int) -> Option<int>
    decreases code.len(),
{
    if code.len() == 0 {
        Some(depth)
    } else {
        match depth_after(code.drop_last(), depth) {
            None => None,
            Some(d) => if d >= takes(code.last()) {
                Some(d - takes(code.last()) + 1)
            } else {
                None
            },
        }
    }
}

proof fn depth_of_joined(a: Seq<StepView>, b: Seq<StepView>, depth: int, mid: int)
    requires
        depth_after(a, depth) == Some(mid),
    ensures
        depth_after(a + b, depth) == depth_after(b, mid),
    decreases b.len(),
{
    if b.len() == 0 {
        assert(a + b =~= a);
    } else {
        depth_of_joined(a, b.drop_last(), depth, mid);
        assert((a + b).drop_last() =~= a + b.drop_last());
    }
}

proof fn depth_of_one(s: StepView, depth: int)
    requires
        depth >= takes(s),
    ensures
        depth_after(seq![s], depth) == Some(depth - takes(s) + 1),
{
    reveal_with_fuel(depth_after, 2);
    assert(seq![s].drop_last() =~= Seq::<StepView>::empty());
}

/// The steps of a sum leave one number more.
pub proof fn sum_leaves_one(t: Seq<TokenView>, pos: int, depth: int)
    requires
        depth >= 0,
        pos >= 0,
    ensures
        sum(t, pos) matches Ok(x) ==> depth_after(x.0, depth) == Some(depth + 1) && pos < x.1
            <= t.len(),
    decreases t.len() - pos, 5int,
{
    product_leaves_one(t, pos, depth);
    if let Ok(first) = product(t, pos) {
        sum_rest_leaves_one(t, first.0, first.1, depth);
    }
}

proof fn sum_rest_leaves_one(t: Seq<TokenView>, code: Seq<StepView>, pos: int, depth: int)
    requires
        depth >= 0,
        0 <= pos <= t.len(),
        depth_after(code, depth) == Some(depth + 1),
    ensures
        sum_rest(t, code, pos) matches Ok(x) ==> depth_after(x.0, depth) == Some(depth + 1) && pos
            <= x.1 <= t.len(),
    decreases t.len() - pos, 0int,
{
    if let Some(op) = sum_sign(token_at(t, pos)) {
        product_leaves_one(t, pos + 1, depth + 1);
        if let Ok(next) = product(t, pos + 1) {
            depth_of_joined(code, next.0, depth, depth + 1);
            depth_of_joined(code + next.0, seq![op], depth, depth + 2);
            depth_of_one(op, depth + 2);
            sum_rest_leaves_one(t, code + next.0 + seq![op], next.1, depth);
        }
    }
}

proof fn product_leaves_one(t: Seq<TokenView>, pos: int, depth: int)
    requires
        depth >= 0,
        pos >= 0,
    ensures
        product(t, pos) matches Ok(x) ==> depth_after(x.0, depth) == Some(depth + 1) && pos < x.1
            <= t.len(),
    decreases t.len() - pos, 4int,
{
    power_leaves_one(t, pos, depth);
    if let Ok(first) = power(t, pos) {
        product_rest_leaves_one(t, first.0, first.1, depth);
    }
}

proof fn product_rest_leaves_one(t: Seq<TokenView>, code: Seq<StepView>, pos: int, depth: int)
    requires
        depth >= 0,
        0 <= pos <= t.len(),
        depth_after(code, depth) == Some(depth + 1),
    ensures
        product_rest(t, code, pos) matches Ok(x) ==> depth_after(x.0, depth) == Some(depth + 1)
            && pos <= x.1 <= t.len(),
    decreases t.len() - pos, 0int,
{
    if let Some(op) = product_sign(token_at(t, pos)) {
        power_leaves_one(t, pos + 1, depth + 1);
        if let Ok(next) = power(t, pos + 1) {
            depth_of_joined(code, next.0, depth, depth + 1);
            depth_of_joined(code + next.0, seq![op], depth, depth + 2);
            depth_of_one(op, depth + 2);
            product_rest_leaves_one(t, code + next.0 + seq![op], next.1, depth);
        }
    }
}

proof fn power_leaves_one(t: Seq<TokenView>, pos: int, depth: int)
    requires
        depth >= 0,
        pos >= 0,
    ensures
        power(t, pos) matches Ok(x) ==> depth_after(x.0, depth) == Some(depth + 1) && pos < x.1
            <= t.len(),
    decreases t.len() - pos, 3int,
{
    signed_leaves_one(t, pos, depth);
    if let Ok(base) = signed(t, pos) {
        if token_at(t, base.1) == Some(TokenView::Caret) {
            power_leaves_one(t, base.1 + 1, depth + 1);
            if let Ok(exp) = power(t, base.1 + 1) {
                depth_of_joined(base.0, exp.0, depth, depth + 1);
                depth_of_joined(base.0 + exp.0, seq![StepView::Power], depth, depth + 2);
                depth_of_one(StepView::Power, depth + 2);
            }
        }
    }
}

proof fn signed_leaves_one(t: Seq<TokenView>, pos: int, depth: int)
    requires
        depth >= 0,
        pos >= 0,
    ensures
        signed(t, pos) matches Ok(x) ==> depth_after(x.0, depth) == Some(depth + 1) && pos < x.1
            <= t.len(),
    decreases t.len() - pos, 2int,
{
    match token_at(t, pos) {
        Some(TokenView::Minus) => {
            signed_leaves_one(t, pos + 1, depth);
            if let Ok(x) = signed(t, pos + 1) {
                depth_of_joined(x.0, seq![StepView::Negate], depth, depth + 1);
                depth_of_one(StepView::Negate, depth + 1);
            }
        },
        Some(TokenView::Plus) => {
            signed_leaves_one(t, pos + 1, depth);
        },
        _ => {
            item_leaves_one(t, pos, depth);
        },
    }
}

proof fn item_leaves_one(t: Seq<TokenView>, pos: int, depth: int)
    requires
        depth >= 0,
        pos >= 0,
    ensures
        item(t, pos) matches Ok(x) ==> depth_after(x.0, depth) == Some(depth + 1) && pos < x.1
            <= t.len(),
    decreases t.len() - pos, 1int,
{
    match token_at(t, pos) {
        Some(TokenView::Number(s)) => {
            depth_of_one(StepView::Number(s), depth);
        },
        Some(TokenView::LParen) => {
            sum_leaves_one(t, pos + 1, depth);
        },
        Some(TokenView::Ident(name)) => {
            if token_at(t, pos + 1) == Some(TokenView::LParen) {
                sum_leaves_one(t, pos + 2, depth);
                if let Ok(x) = sum(t, pos + 2) {
                    arguments_leave_theirs(t, x.0, 1, x.1, depth);
                    if let Ok(all) = arguments_rest(t, x.0, 1, x.1) {
                        if let Ok(f) = called(name, all.1) {
                            let s = StepView::Call(f, all.1);
                            depth_of_joined(all.0, seq![s], depth, depth + all.1);
                            depth_of_one(s, depth + all.1);
                        }
                    }
                }
            } else {
                if let Ok(c) = constant_of(name) {
                    depth_of_one(StepView::Constant(c), depth);
                }
            }
        },
        _ => {},
    }
}

proof fn arguments_leave_theirs(
    t: Seq<TokenView>,
    code: Seq<StepView>,
    n: int,
    pos: int,
    depth: int,
)
    requires
        depth >= 0,
        n >= 1,
        0 <= pos <= t.len(),
        depth_after(code, depth) == Some(depth + n),
    ensures
        arguments_rest(t, code, n, pos) matches Ok(x) ==> depth_after(x.0, depth) == Some(
            depth + x.1,
        ) && x.1 >= 1 && pos <= x.2 <= t.len(),
    decreases t.len() - pos, 0int,
{
    if token_at(t, pos) == Some(TokenView::Comma) {
        sum_leaves_one(t, pos + 1, depth + n);
        if let Ok(x) = sum(t, pos + 1) {
            depth_of_joined(code, x.0, depth, depth + n);
            arguments_leave_theirs(t, code + x.0, n + 1, x.1, depth);
        }
    }
}

} // verus!
