//! Expressions as trees, and the value that their programs come to.
//!
//! A tree says how an expression is bracketed. The laws here say that a program comes to
//! the value of the tree, whatever numbers are and whatever the steps do with them.

use vstd::prelude::*;
use crate::calc::lex;
use crate::calc::lex::{CalcErrorView, TokenView};
use crate::calc::parse;
use crate::calc::parse::{Constant, Function, StepView};

verus! {

/// An expression, with every operand where it belongs.
pub enum Expr {
    Number(Seq<char>),
    Constant(Constant),
    Bracketed(Box<Expr>),
    Call(Seq<char>, Box<Args>),
    Negative(Box<Expr>),
    Positive(Box<Expr>),
    Power(Box<Expr>, Box<Expr>),
    Product(Box<Expr>, Box<Expr>),
    Quotient(Box<Expr>, Box<Expr>),
    Remainder(Box<Expr>, Box<Expr>),
    Sum(Box<Expr>, Box<Expr>),
    Difference(Box<Expr>, Box<Expr>),
}

/// The arguments of a call: at least one.
pub enum Args {
    One(Box<Expr>),
    More(Box<Args>, Box<Expr>),
}

pub open spec fn constant_name(c: Constant) -> Seq<char> {
    match c {
        Constant::Pi => "pi"@,
        Constant::E => "e"@,
        Constant::Tau => "tau"@,
    }
}

/// The tokens of an expression, from left to right.
pub open spec fn tokens_in(e: Expr) -> Seq<TokenView>
    decreases e,
{
    match e {
        Expr::Number(s) => seq![TokenView::Number(s)],
        Expr::Constant(c) => seq![TokenView::Ident(constant_name(c))],
        Expr::Bracketed(x) => seq![TokenView::LParen] + tokens_in(*x) + seq![TokenView::RParen],
        Expr::Call(name, a) => seq![TokenView::Ident(name)] + seq![TokenView::LParen]
            + tokens_in_args(*a) + seq![TokenView::RParen],
        Expr::Negative(x) => seq![TokenView::Minus] + tokens_in(*x),
        Expr::Positive(x) => seq![TokenView::Plus] + tokens_in(*x),
        Expr::Power(a, b) => tokens_in(*a) + seq![TokenView::Caret] + tokens_in(*b),
        Expr::Product(a, b) => tokens_in(*a) + seq![TokenView::Star] + tokens_in(*b),
        Expr::Quotient(a, b) => tokens_in(*a) + seq![TokenView::Slash] + tokens_in(*b),
        Expr::Remainder(a, b) => tokens_in(*a) + seq![TokenView::Percent] + tokens_in(*b),
        Expr::Sum(a, b) => tokens_in(*a) + seq![TokenView::Plus] + tokens_in(*b),
        Expr::Difference(a, b) => tokens_in(*a) + seq![TokenView::Minus] + tokens_in(*b),
    }
}

pub open spec fn tokens_in_args(a: Args) -> Seq<TokenView>
    decreases a,
{
    match a {
        Args::One(x) => tokens_in(*x),
        Args::More(rest, x) => tokens_in_args(*rest) + seq![TokenView::Comma] + tokens_in(*x),
    }
}

pub open spec fn args_len(a: Args) -> int
    decreases a,
{
    match a {
        Args::One(_) => 1,
        Args::More(rest, _) => args_len(*rest) + 1,
    }
}

/// How loosely an expression is held together: a value by itself not at all, then signs,
/// powers, products, and sums the most.
pub open spec fn looseness(e: Expr) -> int {
    match e {
        Expr::Number(_) => 0,
        Expr::Constant(_) => 0,
        Expr::Bracketed(_) => 0,
        Expr::Call(_, _) => 0,
        Expr::Negative(_) => 1,
        Expr::Positive(_) => 1,
        Expr::Power(_, _) => 2,
        Expr::Product(_, _) => 3,
        Expr::Quotient(_, _) => 3,
        Expr::Remainder(_, _) => 3,
        Expr::Sum(_, _) => 4,
        Expr::Difference(_, _) => 4,
    }
}

/// The tree is the one that its tokens stand for: no operand is held together more
/// loosely than its place admits. Sums and products group to the left and powers to the
/// right; a sign is part of the base of a power; what else is meant needs brackets.
pub open spec fn is_sound(e: Expr) -> bool
    decreases e,
{
    match e {
        Expr::Number(_) => true,
        Expr::Constant(_) => true,
        Expr::Bracketed(x) => is_sound(*x),
        Expr::Call(name, a) => are_sound(*a) && parse::called(name, args_len(*a)) is Ok,
        Expr::Negative(x) => is_sound(*x) && looseness(*x) <= 1,
        Expr::Positive(x) => is_sound(*x) && looseness(*x) <= 1,
        Expr::Power(a, b) => is_sound(*a) && looseness(*a) <= 1 && is_sound(*b) && looseness(*b)
            <= 2,
        Expr::Product(a, b) => is_sound(*a) && looseness(*a) <= 3 && is_sound(*b) && looseness(*b)
            <= 2,
        Expr::Quotient(a, b) => is_sound(*a) && looseness(*a) <= 3 && is_sound(*b) && looseness(*b)
            <= 2,
        Expr::Remainder(a, b) => is_sound(*a) && looseness(*a) <= 3 && is_sound(*b) && looseness(
            *b,
        ) <= 2,
        Expr::Sum(a, b) => is_sound(*a) && is_sound(*b) && looseness(*b) <= 3,
        Expr::Difference(a, b) => is_sound(*a) && is_sound(*b) && looseness(*b) <= 3,
    }
}

pub open spec fn are_sound(a: Args) -> bool
    decreases a,
{
    match a {
        Args::One(x) => is_sound(*x),
        Args::More(rest, x) => are_sound(*rest) && is_sound(*x),
    }
}

// ---------- values ----------

/// What numbers are, and what the operations do with them.
#[verifier::reject_recursive_types(V)]
pub struct Meaning<V> {
    pub number: spec_fn(Seq<char>) -> V,
    pub constant: spec_fn(Constant) -> V,
    pub negative: spec_fn(V) -> V,
    pub sum: spec_fn(V, V) -> V,
    pub difference: spec_fn(V, V) -> V,
    pub product: spec_fn(V, V) -> V,
    pub quotient: spec_fn(V, V) -> V,
    pub remainder: spec_fn(V, V) -> V,
    pub power: spec_fn(V, V) -> V,
    pub call: spec_fn(Function, Seq<V>) -> V,
}

/// The value of an expression: of its operands', by the operation between them.
pub open spec fn value_of<V>(e: Expr, m: Meaning<V>) -> V
    decreases e,
{
    match e {
        Expr::Number(s) => (m.number)(s),
        Expr::Constant(c) => (m.constant)(c),
        Expr::Bracketed(x) => value_of(*x, m),
        Expr::Call(name, a) => (m.call)(parse::called(name, args_len(*a))->Ok_0, values_of(*a, m)),
        Expr::Negative(x) => (m.negative)(value_of(*x, m)),
        Expr::Positive(x) => value_of(*x, m),
        Expr::Power(a, b) => (m.power)(value_of(*a, m), value_of(*b, m)),
        Expr::Product(a, b) => (m.product)(value_of(*a, m), value_of(*b, m)),
        Expr::Quotient(a, b) => (m.quotient)(value_of(*a, m), value_of(*b, m)),
        Expr::Remainder(a, b) => (m.remainder)(value_of(*a, m), value_of(*b, m)),
        Expr::Sum(a, b) => (m.sum)(value_of(*a, m), value_of(*b, m)),
        Expr::Difference(a, b) => (m.difference)(value_of(*a, m), value_of(*b, m)),
    }
}

pub open spec fn values_of<V>(a: Args, m: Meaning<V>) -> Seq<V>
    decreases a,
{
    match a {
        Args::One(x) => seq![value_of(*x, m)],
        Args::More(rest, x) => values_of(*rest, m).push(value_of(*x, m)),
    }
}

/// The stack after a step that takes two numbers.
pub open spec fn after_two<V>(stack: Seq<V>, op: spec_fn(V, V) -> V) -> Seq<V> {
    let n = stack.len() - 2;
    stack.take(n).push(op(stack[n], stack[n + 1]))
}

/// The stack after one step.
pub open spec fn after_step<V>(stack: Seq<V>, s: StepView, m: Meaning<V>) -> Seq<V> {
    match s {
        StepView::Number(t) => stack.push((m.number)(t)),
        StepView::Constant(c) => stack.push((m.constant)(c)),
        StepView::Negate => stack.drop_last().push((m.negative)(stack.last())),
        StepView::Sum => after_two(stack, m.sum),
        StepView::Difference => after_two(stack, m.difference),
        StepView::Product => after_two(stack, m.product),
        StepView::Quotient => after_two(stack, m.quotient),
        StepView::Remainder => after_two(stack, m.remainder),
        StepView::Power => after_two(stack, m.power),
        StepView::Call(f, k) => {
            let n = stack.len() - k;
            stack.take(n).push((m.call)(f, stack.skip(n)))
        },
    }
}

/// The stack after all steps of a program.
pub open spec fn worked_out<V>(code: Seq<StepView>, stack: Seq<V>, m: Meaning<V>) -> Seq<V>
    decreases code.len(),
{
    if code.len() == 0 {
        stack
    } else {
        after_step(worked_out(code.drop_last(), stack, m), code.last(), m)
    }
}

// ---------- the program of a tree ----------

spec fn program(e: Expr) -> Seq<StepView>
    decreases e,
{
    match e {
        Expr::Number(s) => seq![StepView::Number(s)],
        Expr::Constant(c) => seq![StepView::Constant(c)],
        Expr::Bracketed(x) => program(*x),
        Expr::Call(name, a) => args_program(*a) + seq![
            StepView::Call(parse::called(name, args_len(*a))->Ok_0, args_len(*a)),
        ],
        Expr::Negative(x) => program(*x) + seq![StepView::Negate],
        Expr::Positive(x) => program(*x),
        Expr::Power(a, b) => program(*a) + program(*b) + seq![StepView::Power],
        Expr::Product(a, b) => program(*a) + program(*b) + seq![StepView::Product],
        Expr::Quotient(a, b) => program(*a) + program(*b) + seq![StepView::Quotient],
        Expr::Remainder(a, b) => program(*a) + program(*b) + seq![StepView::Remainder],
        Expr::Sum(a, b) => program(*a) + program(*b) + seq![StepView::Sum],
        Expr::Difference(a, b) => program(*a) + program(*b) + seq![StepView::Difference],
    }
}

spec fn args_program(a: Args) -> Seq<StepView>
    decreases a,
{
    match a {
        Args::One(x) => program(*x),
        Args::More(rest, x) => args_program(*rest) + program(*x),
    }
}

proof fn worked_out_in_turn<V>(a: Seq<StepView>, b: Seq<StepView>, stack: Seq<V>, m: Meaning<V>)
    ensures
        worked_out(a + b, stack, m) == worked_out(b, worked_out(a, stack, m), m),
    decreases b.len(),
{
    if b.len() == 0 {
        assert(a + b =~= a);
    } else {
        worked_out_in_turn(a, b.drop_last(), stack, m);
        assert((a + b).drop_last() =~= a + b.drop_last());
        assert((a + b).last() == b.last());
    }
}

proof fn one_step_worked_out<V>(s: StepView, stack: Seq<V>, m: Meaning<V>)
    ensures
        worked_out(seq![s], stack, m) == after_step(stack, s, m),
{
    reveal_with_fuel(worked_out, 2);
    assert(seq![s].drop_last() =~= Seq::<StepView>::empty());
}

proof fn two_worked_out<V>(
    a: Expr,
    b: Expr,
    s: StepView,
    op: spec_fn(V, V) -> V,
    stack: Seq<V>,
    m: Meaning<V>,
)
    requires
        worked_out(program(a), stack, m) == stack.push(value_of(a, m)),
        worked_out(program(b), stack.push(value_of(a, m)), m) == stack.push(value_of(a, m)).push(
            value_of(b, m),
        ),
        forall|st: Seq<V>| #[trigger] after_step(st, s, m) == after_two(st, op),
    ensures
        worked_out(program(a) + program(b) + seq![s], stack, m) == stack.push(
            op(value_of(a, m), value_of(b, m)),
        ),
{
    worked_out_in_turn(program(a) + program(b), seq![s], stack, m);
    worked_out_in_turn(program(a), program(b), stack, m);
    let full = stack.push(value_of(a, m)).push(value_of(b, m));
    one_step_worked_out(s, full, m);
    assert(full.take(full.len() - 2) =~= stack);
}

proof fn program_has_the_value<V>(e: Expr, stack: Seq<V>, m: Meaning<V>)
    ensures
        worked_out(program(e), stack, m) == stack.push(value_of(e, m)),
    decreases e,
{
    match e {
        Expr::Number(s) => {
            one_step_worked_out(StepView::Number(s), stack, m);
        },
        Expr::Constant(c) => {
            one_step_worked_out(StepView::Constant(c), stack, m);
        },
        Expr::Bracketed(x) => {
            program_has_the_value(*x, stack, m);
        },
        Expr::Positive(x) => {
            program_has_the_value(*x, stack, m);
        },
        Expr::Call(name, a) => {
            let n = args_len(*a);
            let s = StepView::Call(parse::called(name, n)->Ok_0, n);
            args_have_their_values(*a, stack, m);
            worked_out_in_turn(args_program(*a), seq![s], stack, m);
            let full = stack + values_of(*a, m);
            one_step_worked_out(s, full, m);
            assert(full.take(full.len() - n) =~= stack);
            assert(full.skip(full.len() - n) =~= values_of(*a, m));
        },
        Expr::Negative(x) => {
            program_has_the_value(*x, stack, m);
            worked_out_in_turn(program(*x), seq![StepView::Negate], stack, m);
            let full = stack.push(value_of(*x, m));
            one_step_worked_out(StepView::Negate, full, m);
            assert(full.drop_last() =~= stack);
        },
        Expr::Power(a, b) => {
            program_has_the_value(*a, stack, m);
            program_has_the_value(*b, stack.push(value_of(*a, m)), m);
            two_worked_out(*a, *b, StepView::Power, m.power, stack, m);
        },
        Expr::Product(a, b) => {
            program_has_the_value(*a, stack, m);
            program_has_the_value(*b, stack.push(value_of(*a, m)), m);
            two_worked_out(*a, *b, StepView::Product, m.product, stack, m);
        },
        Expr::Quotient(a, b) => {
            program_has_the_value(*a, stack, m);
            program_has_the_value(*b, stack.push(value_of(*a, m)), m);
            two_worked_out(*a, *b, StepView::Quotient, m.quotient, stack, m);
        },
        Expr::Remainder(a, b) => {
            program_has_the_value(*a, stack, m);
            program_has_the_value(*b, stack.push(value_of(*a, m)), m);
            two_worked_out(*a, *b, StepView::Remainder, m.remainder, stack, m);
        },
        Expr::Sum(a, b) => {
            program_has_the_value(*a, stack, m);
            program_has_the_value(*b, stack.push(value_of(*a, m)), m);
            two_worked_out(*a, *b, StepView::Sum, m.sum, stack, m);
        },
        Expr::Difference(a, b) => {
            program_has_the_value(*a, stack, m);
            program_has_the_value(*b, stack.push(value_of(*a, m)), m);
            two_worked_out(*a, *b, StepView::Difference, m.difference, stack, m);
        },
    }
}

proof fn args_have_their_values<V>(a: Args, stack: Seq<V>, m: Meaning<V>)
    ensures
        worked_out(args_program(a), stack, m) == stack + values_of(a, m),
        values_of(a, m).len() == args_len(a),
    decreases a,
{
    match a {
        Args::One(x) => {
            program_has_the_value(*x, stack, m);
            assert(stack + seq![value_of(*x, m)] =~= stack.push(value_of(*x, m)));
        },
        Args::More(rest, x) => {
            args_have_their_values(*rest, stack, m);
            let now = stack + values_of(*rest, m);
            program_has_the_value(*x, now, m);
            worked_out_in_turn(args_program(*rest), program(*x), stack, m);
            assert(now.push(value_of(*x, m)) =~= stack + values_of(a, m));
        },
    }
}

// ---------- reading a tree's tokens ----------

/// `part` stands among the tokens at `pos`.
spec fn stands(t: Seq<TokenView>, pos: int, part: Seq<TokenView>) -> bool {
    0 <= pos && pos + part.len() <= t.len() && t.subrange(pos, pos + part.len()) == part
}

proof fn stand_in_turn(t: Seq<TokenView>, pos: int, a: Seq<TokenView>, b: Seq<TokenView>)
    requires
        stands(t, pos, a + b),
    ensures
        stands(t, pos, a),
        stands(t, pos + a.len(), b),
{
    let all = t.subrange(pos, pos + (a + b).len());
    assert(t.subrange(pos, pos + a.len()) =~= all.subrange(0, a.len() as int));
    assert(all.subrange(0, a.len() as int) =~= a);
    assert(t.subrange(pos + a.len(), pos + a.len() + b.len()) =~= all.subrange(
        a.len() as int,
        (a + b).len() as int,
    ));
    assert(all.subrange(a.len() as int, (a + b).len() as int) =~= b);
}

proof fn one_stands(t: Seq<TokenView>, pos: int, x: TokenView)
    requires
        stands(t, pos, seq![x]),
    ensures
        parse::token_at(t, pos) == Some(x),
{
    assert(t.subrange(pos, pos + 1)[0] == x);
}

/// `a`, then the token `x`, then `b`.
proof fn three_stand(
    t: Seq<TokenView>,
    pos: int,
    a: Seq<TokenView>,
    x: TokenView,
    b: Seq<TokenView>,
)
    requires
        stands(t, pos, a + seq![x] + b),
    ensures
        stands(t, pos, a),
        parse::token_at(t, pos + a.len()) == Some(x),
        stands(t, pos + a.len() + 1, b),
{
    stand_in_turn(t, pos, a + seq![x], b);
    stand_in_turn(t, pos, a, seq![x]);
    one_stands(t, pos + a.len(), x);
}

proof fn something_is_written(e: Expr)
    ensures
        tokens_in(e).len() > 0,
        looseness(e) == 0 ==> tokens_in(e)[0] != TokenView::Minus && tokens_in(e)[0]
            != TokenView::Plus,
    decreases e,
{
    match e {
        Expr::Power(a, _) => {
            something_is_written(*a);
        },
        _ => {},
    }
}

proof fn some_args_are_written(a: Args)
    ensures
        tokens_in_args(a).len() > 0,
        args_len(a) >= 1,
    decreases a,
{
    match a {
        Args::One(x) => {
            something_is_written(*x);
        },
        Args::More(rest, _) => {
            some_args_are_written(*rest);
        },
    }
}

proof fn constants_have_names(c: Constant)
    ensures
        parse::constant_of(constant_name(c)) == Ok::<Constant, CalcErrorView>(c),
{
    reveal_strlit("pi");
    reveal_strlit("e");
    reveal_strlit("tau");
    assert("e"@.len() != "pi"@.len());
    assert("tau"@.len() != "pi"@.len());
    assert("tau"@.len() != "e"@.len());
}

proof fn reads_sum(e: Expr, t: Seq<TokenView>, pos: int)
    requires
        is_sound(e),
        stands(t, pos, tokens_in(e)),
        ({
            let next = parse::token_at(t, pos + tokens_in(e).len());
            next != Some(TokenView::LParen) && next != Some(TokenView::Caret)
                && parse::product_sign(next) is None
        }),
    ensures
        parse::sum(t, pos) == parse::sum_rest(t, program(e), pos + tokens_in(e).len()),
    decreases e, 5int,
{
    something_is_written(e);
    match e {
        Expr::Sum(a, b) => {
            reads_sum_of(e, *a, TokenView::Plus, *b, StepView::Sum, t, pos);
        },
        Expr::Difference(a, b) => {
            reads_sum_of(e, *a, TokenView::Minus, *b, StepView::Difference, t, pos);
        },
        _ => {
            reads_product(e, t, pos);
        },
    }
}

proof fn reads_sum_of(
    e: Expr,
    a: Expr,
    x: TokenView,
    b: Expr,
    s: StepView,
    t: Seq<TokenView>,
    pos: int,
)
    requires
        e == Expr::Sum(Box::new(a), Box::new(b)) && x == TokenView::Plus && s == StepView::Sum || e
            == Expr::Difference(Box::new(a), Box::new(b)) && x == TokenView::Minus && s
            == StepView::Difference,
        is_sound(e),
        stands(t, pos, tokens_in(e)),
        ({
            let next = parse::token_at(t, pos + tokens_in(e).len());
            next != Some(TokenView::LParen) && next != Some(TokenView::Caret)
                && parse::product_sign(next) is None
        }),
    ensures
        parse::sum(t, pos) == parse::sum_rest(t, program(e), pos + tokens_in(e).len()),
    decreases e, 4int,
{
    something_is_written(a);
    something_is_written(b);
    three_stand(t, pos, tokens_in(a), x, tokens_in(b));
    let at = pos + tokens_in(a).len();
    reads_sum(a, t, pos);
    reads_product(b, t, at + 1);
    let end = at + 1 + tokens_in(b).len();
    assert(pos + tokens_in(e).len() == end);
    assert(parse::product(t, at + 1) == Ok::<(Seq<StepView>, int), CalcErrorView>(
        (program(b), end),
    ));
}

proof fn reads_product(e: Expr, t: Seq<TokenView>, pos: int)
    requires
        is_sound(e),
        looseness(e) <= 3,
        stands(t, pos, tokens_in(e)),
        ({
            let next = parse::token_at(t, pos + tokens_in(e).len());
            next != Some(TokenView::LParen) && next != Some(TokenView::Caret)
        }),
    ensures
        parse::product(t, pos) == parse::product_rest(t, program(e), pos + tokens_in(e).len()),
    decreases e, 3int,
{
    something_is_written(e);
    match e {
        Expr::Product(a, b) => {
            reads_product_of(e, *a, TokenView::Star, *b, StepView::Product, t, pos);
        },
        Expr::Quotient(a, b) => {
            reads_product_of(e, *a, TokenView::Slash, *b, StepView::Quotient, t, pos);
        },
        Expr::Remainder(a, b) => {
            reads_product_of(e, *a, TokenView::Percent, *b, StepView::Remainder, t, pos);
        },
        _ => {
            reads_power(e, t, pos);
        },
    }
}

proof fn reads_product_of(
    e: Expr,
    a: Expr,
    x: TokenView,
    b: Expr,
    s: StepView,
    t: Seq<TokenView>,
    pos: int,
)
    requires
        e == Expr::Product(Box::new(a), Box::new(b)) && x == TokenView::Star && s
            == StepView::Product || e == Expr::Quotient(Box::new(a), Box::new(b)) && x
            == TokenView::Slash && s == StepView::Quotient || e == Expr::Remainder(
            Box::new(a),
            Box::new(b),
        ) && x == TokenView::Percent && s == StepView::Remainder,
        is_sound(e),
        stands(t, pos, tokens_in(e)),
        ({
            let next = parse::token_at(t, pos + tokens_in(e).len());
            next != Some(TokenView::LParen) && next != Some(TokenView::Caret)
        }),
    ensures
        parse::product(t, pos) == parse::product_rest(t, program(e), pos + tokens_in(e).len()),
    decreases e, 2int,
{
    something_is_written(a);
    something_is_written(b);
    three_stand(t, pos, tokens_in(a), x, tokens_in(b));
    let at = pos + tokens_in(a).len();
    reads_product(a, t, pos);
    reads_power(b, t, at + 1);
    let end = at + 1 + tokens_in(b).len();
    assert(pos + tokens_in(e).len() == end);
}

proof fn reads_power(e: Expr, t: Seq<TokenView>, pos: int)
    requires
        is_sound(e),
        looseness(e) <= 2,
        stands(t, pos, tokens_in(e)),
        ({
            let next = parse::token_at(t, pos + tokens_in(e).len());
            next != Some(TokenView::LParen) && next != Some(TokenView::Caret)
        }),
    ensures
        parse::power(t, pos) == Ok::<(Seq<StepView>, int), CalcErrorView>(
            (program(e), pos + tokens_in(e).len()),
        ),
    decreases e, 2int,
{
    something_is_written(e);
    match e {
        Expr::Power(a, b) => {
            something_is_written(*a);
            three_stand(t, pos, tokens_in(*a), TokenView::Caret, tokens_in(*b));
            let at = pos + tokens_in(*a).len();
            reads_signed(*a, t, pos);
            reads_power(*b, t, at + 1);
        },
        _ => {
            reads_signed(e, t, pos);
        },
    }
}

proof fn reads_signed(e: Expr, t: Seq<TokenView>, pos: int)
    requires
        is_sound(e),
        looseness(e) <= 1,
        stands(t, pos, tokens_in(e)),
        parse::token_at(t, pos + tokens_in(e).len()) != Some(TokenView::LParen),
    ensures
        parse::signed(t, pos) == Ok::<(Seq<StepView>, int), CalcErrorView>(
            (program(e), pos + tokens_in(e).len()),
        ),
    decreases e, 1int,
{
    something_is_written(e);
    match e {
        Expr::Negative(x) => {
            stand_in_turn(t, pos, seq![TokenView::Minus], tokens_in(*x));
            one_stands(t, pos, TokenView::Minus);
            reads_signed(*x, t, pos + 1);
        },
        Expr::Positive(x) => {
            stand_in_turn(t, pos, seq![TokenView::Plus], tokens_in(*x));
            one_stands(t, pos, TokenView::Plus);
            reads_signed(*x, t, pos + 1);
        },
        _ => {
            assert(t.subrange(pos, pos + tokens_in(e).len())[0] == t[pos]);
            reads_item(e, t, pos);
        },
    }
}

proof fn reads_item(e: Expr, t: Seq<TokenView>, pos: int)
    requires
        is_sound(e),
        looseness(e) == 0,
        stands(t, pos, tokens_in(e)),
        parse::token_at(t, pos + tokens_in(e).len()) != Some(TokenView::LParen),
    ensures
        parse::item(t, pos) == Ok::<(Seq<StepView>, int), CalcErrorView>(
            (program(e), pos + tokens_in(e).len()),
        ),
    decreases e, 0int,
{
    match e {
        Expr::Number(s) => {
            one_stands(t, pos, TokenView::Number(s));
        },
        Expr::Constant(c) => {
            one_stands(t, pos, TokenView::Ident(constant_name(c)));
            constants_have_names(c);
        },
        Expr::Bracketed(x) => {
            something_is_written(*x);
            stand_in_turn(
                t,
                pos,
                seq![TokenView::LParen] + tokens_in(*x),
                seq![TokenView::RParen],
            );
            stand_in_turn(t, pos, seq![TokenView::LParen], tokens_in(*x));
            one_stands(t, pos, TokenView::LParen);
            one_stands(t, pos + 1 + tokens_in(*x).len(), TokenView::RParen);
            reads_sum(*x, t, pos + 1);
        },
        Expr::Call(name, a) => {
            some_args_are_written(*a);
            let head = seq![TokenView::Ident(name)] + seq![TokenView::LParen];
            stand_in_turn(t, pos, head + tokens_in_args(*a), seq![TokenView::RParen]);
            stand_in_turn(t, pos, head, tokens_in_args(*a));
            stand_in_turn(t, pos, seq![TokenView::Ident(name)], seq![TokenView::LParen]);
            one_stands(t, pos, TokenView::Ident(name));
            one_stands(t, pos + 1, TokenView::LParen);
            let end = pos + 2 + tokens_in_args(*a).len();
            one_stands(t, end, TokenView::RParen);
            reads_args(*a, t, pos + 2);
            assert(parse::arguments_rest(t, args_program(*a), args_len(*a), end) == Ok::<
                (Seq<StepView>, int, int),
                CalcErrorView,
            >((args_program(*a), args_len(*a), end)));
        },
        _ => {},
    }
}

proof fn reads_args(a: Args, t: Seq<TokenView>, pos: int)
    requires
        are_sound(a),
        stands(t, pos, tokens_in_args(a)),
        ({
            let next = parse::token_at(t, pos + tokens_in_args(a).len());
            next == Some(TokenView::Comma) || next == Some(TokenView::RParen)
        }),
    ensures
        parse::sum(t, pos) matches Ok(x) && pos < x.1 <= t.len() && parse::arguments_rest(
            t,
            x.0,
            1,
            x.1,
        ) == parse::arguments_rest(
            t,
            args_program(a),
            args_len(a),
            pos + tokens_in_args(a).len(),
        ),
    decreases a, 0int,
{
    match a {
        Args::One(x) => {
            something_is_written(*x);
            reads_sum(*x, t, pos);
        },
        Args::More(rest, x) => {
            something_is_written(*x);
            three_stand(t, pos, tokens_in_args(*rest), TokenView::Comma, tokens_in(*x));
            let at = pos + tokens_in_args(*rest).len();
            reads_args(*rest, t, pos);
            reads_sum(*x, t, at + 1);
            let end = at + 1 + tokens_in(*x).len();
            assert(end == pos + tokens_in_args(a).len());
            assert(parse::sum(t, at + 1) == Ok::<(Seq<StepView>, int), CalcErrorView>(
                (program(*x), end),
            ));
        },
    }
}

// ---------- the laws ----------

/// A text with the tokens of an expression is a program, and the program comes to the
/// value of that expression: whatever numbers are, each operation is done on the values
/// of its own two operands, in their order.
pub proof fn an_expression_comes_to_its_value<V>(input: Seq<char>, e: Expr, m: Meaning<V>)
    requires
        is_sound(e),
        lex::tokens_of(input) == Ok::<Seq<TokenView>, CalcErrorView>(tokens_in(e)),
    ensures
        crate::calc::compiled(input) matches Ok(code) && worked_out(code, Seq::empty(), m) == seq![
            value_of(e, m),
        ],
{
    let t = tokens_in(e);
    something_is_written(e);
    assert(t.subrange(0, t.len() as int) =~= t);
    reads_sum(e, t, 0);
    program_has_the_value(e, Seq::empty(), m);
    assert(Seq::<V>::empty().push(value_of(e, m)) =~= seq![value_of(e, m)]);
}

/// The operation that a sign between two operands stands for.
pub open spec fn operation<V>(x: TokenView, m: Meaning<V>) -> spec_fn(V, V) -> V {
    match x {
        TokenView::Plus => m.sum,
        TokenView::Minus => m.difference,
        TokenView::Star => m.product,
        TokenView::Slash => m.quotient,
        TokenView::Percent => m.remainder,
        _ => m.power,
    }
}

/// Two operands with a sign between them.
spec fn of_two(a: Expr, x: TokenView, b: Expr) -> Expr {
    match x {
        TokenView::Plus => Expr::Sum(Box::new(a), Box::new(b)),
        TokenView::Minus => Expr::Difference(Box::new(a), Box::new(b)),
        TokenView::Star => Expr::Product(Box::new(a), Box::new(b)),
        TokenView::Slash => Expr::Quotient(Box::new(a), Box::new(b)),
        TokenView::Percent => Expr::Remainder(Box::new(a), Box::new(b)),
        _ => Expr::Power(Box::new(a), Box::new(b)),
    }
}

proof fn two_make_one<V>(a: Expr, x: TokenView, b: Expr, m: Meaning<V>)
    requires
        is_sound(a) && is_sound(b),
        ({
            ||| is_sum_sign(x) && looseness(b) <= 3
            ||| is_product_sign(x) && looseness(a) <= 3 && looseness(b) <= 2
            ||| x == TokenView::Caret && looseness(a) <= 1 && looseness(b) <= 2
        }),
    ensures
        is_sound(of_two(a, x, b)),
        looseness(of_two(a, x, b)) == (if is_sum_sign(x) {
            4int
        } else if is_product_sign(x) {
            3
        } else {
            2
        }),
        tokens_in(of_two(a, x, b)) == tokens_in(a) + seq![x] + tokens_in(b),
        value_of(of_two(a, x, b), m) == operation(x, m)(value_of(a, m), value_of(b, m)),
{
}

pub open spec fn is_sum_sign(x: TokenView) -> bool {
    x == TokenView::Plus || x == TokenView::Minus
}

pub open spec fn is_product_sign(x: TokenView) -> bool {
    x == TokenView::Star || x == TokenView::Slash || x == TokenView::Percent
}

/// Addition and subtraction are worked out from the left: `a - b - c` is `(a - b) - c`,
/// for any three products, and so with every choice of the two signs.
pub proof fn sums_group_to_the_left<V>(
    input: Seq<char>,
    a: Expr,
    x: TokenView,
    b: Expr,
    y: TokenView,
    c: Expr,
    m: Meaning<V>,
)
    requires
        is_sound(a) && looseness(a) <= 3,
        is_sound(b) && looseness(b) <= 3,
        is_sound(c) && looseness(c) <= 3,
        is_sum_sign(x) && is_sum_sign(y),
        lex::tokens_of(input) == Ok::<Seq<TokenView>, CalcErrorView>(
            tokens_in(a) + seq![x] + tokens_in(b) + seq![y] + tokens_in(c),
        ),
    ensures
        crate::calc::compiled(input) matches Ok(code) && worked_out(code, Seq::empty(), m) == seq![
            operation(y, m)(operation(x, m)(value_of(a, m), value_of(b, m)), value_of(c, m)),
        ],
{
    two_make_one(a, x, b, m);
    two_make_one(of_two(a, x, b), y, c, m);
    an_expression_comes_to_its_value(input, of_two(of_two(a, x, b), y, c), m);
}

/// Products are worked out from the left: `a / b * c` is `(a / b) * c`, for any three
/// powers, and so with every choice of the two signs.
pub proof fn products_group_to_the_left<V>(
    input: Seq<char>,
    a: Expr,
    x: TokenView,
    b: Expr,
    y: TokenView,
    c: Expr,
    m: Meaning<V>,
)
    requires
        is_sound(a) && looseness(a) <= 2,
        is_sound(b) && looseness(b) <= 2,
        is_sound(c) && looseness(c) <= 2,
        is_product_sign(x) && is_product_sign(y),
        lex::tokens_of(input) == Ok::<Seq<TokenView>, CalcErrorView>(
            tokens_in(a) + seq![x] + tokens_in(b) + seq![y] + tokens_in(c),
        ),
    ensures
        crate::calc::compiled(input) matches Ok(code) && worked_out(code, Seq::empty(), m) == seq![
            operation(y, m)(operation(x, m)(value_of(a, m), value_of(b, m)), value_of(c, m)),
        ],
{
    two_make_one(a, x, b, m);
    two_make_one(of_two(a, x, b), y, c, m);
    an_expression_comes_to_its_value(input, of_two(of_two(a, x, b), y, c), m);
}

/// Products come before sums on either side: `a + b * c` is `a + (b * c)`, and
/// `a * b + c` is `(a * b) + c`, for any three powers and every choice of the signs.
pub proof fn products_come_before_sums<V>(
    before: Seq<char>,
    behind: Seq<char>,
    a: Expr,
    x: TokenView,
    b: Expr,
    y: TokenView,
    c: Expr,
    m: Meaning<V>,
)
    requires
        is_sound(a) && looseness(a) <= 2,
        is_sound(b) && looseness(b) <= 2,
        is_sound(c) && looseness(c) <= 2,
        is_sum_sign(x) && is_product_sign(y),
        lex::tokens_of(behind) == Ok::<Seq<TokenView>, CalcErrorView>(
            tokens_in(a) + seq![x] + tokens_in(b) + seq![y] + tokens_in(c),
        ),
        lex::tokens_of(before) == Ok::<Seq<TokenView>, CalcErrorView>(
            tokens_in(a) + seq![y] + tokens_in(b) + seq![x] + tokens_in(c),
        ),
    ensures
        crate::calc::compiled(behind) matches Ok(code) && worked_out(code, Seq::empty(), m) == seq![
            operation(x, m)(value_of(a, m), operation(y, m)(value_of(b, m), value_of(c, m))),
        ],
        crate::calc::compiled(before) matches Ok(code) && worked_out(code, Seq::empty(), m) == seq![
            operation(x, m)(operation(y, m)(value_of(a, m), value_of(b, m)), value_of(c, m)),
        ],
{
    let e = of_two(a, x, of_two(b, y, c));
    two_make_one(b, y, c, m);
    two_make_one(a, x, of_two(b, y, c), m);
    two_make_one(a, y, b, m);
    two_make_one(of_two(a, y, b), x, c, m);
    assert(tokens_in(e) =~= tokens_in(a) + seq![x] + tokens_in(b) + seq![y] + tokens_in(c));
    an_expression_comes_to_its_value(behind, e, m);
    an_expression_comes_to_its_value(before, of_two(of_two(a, y, b), x, c), m);
}

/// Powers are worked out from the right and before products; a sign before the base is
/// part of it: `a ^ b ^ c` is `a ^ (b ^ c)`, `a * b ^ c` is `a * (b ^ c)`, and `- b ^ c`
/// is `(- b) ^ c`, for any three operands of looser bonds than a sign.
pub proof fn powers_group_to_the_right<V>(
    tower: Seq<char>,
    scaled: Seq<char>,
    turned: Seq<char>,
    a: Expr,
    y: TokenView,
    b: Expr,
    c: Expr,
    m: Meaning<V>,
)
    requires
        is_sound(a) && looseness(a) <= 1,
        is_sound(b) && looseness(b) <= 1,
        is_sound(c) && looseness(c) <= 1,
        is_product_sign(y),
        lex::tokens_of(tower) == Ok::<Seq<TokenView>, CalcErrorView>(
            tokens_in(a) + seq![TokenView::Caret] + tokens_in(b) + seq![TokenView::Caret]
                + tokens_in(c),
        ),
        lex::tokens_of(scaled) == Ok::<Seq<TokenView>, CalcErrorView>(
            tokens_in(a) + seq![y] + tokens_in(b) + seq![TokenView::Caret] + tokens_in(c),
        ),
        lex::tokens_of(turned) == Ok::<Seq<TokenView>, CalcErrorView>(
            seq![TokenView::Minus] + tokens_in(b) + seq![TokenView::Caret] + tokens_in(c),
        ),
    ensures
        crate::calc::compiled(tower) matches Ok(code) && worked_out(code, Seq::empty(), m) == seq![
            (m.power)(value_of(a, m), (m.power)(value_of(b, m), value_of(c, m))),
        ],
        crate::calc::compiled(scaled) matches Ok(code) && worked_out(code, Seq::empty(), m) == seq![
            operation(y, m)(value_of(a, m), (m.power)(value_of(b, m), value_of(c, m))),
        ],
        crate::calc::compiled(turned) matches Ok(code) && worked_out(code, Seq::empty(), m) == seq![
            (m.power)((m.negative)(value_of(b, m)), value_of(c, m)),
        ],
{
    let p = of_two(b, TokenView::Caret, c);
    two_make_one(b, TokenView::Caret, c, m);
    two_make_one(a, TokenView::Caret, p, m);
    two_make_one(a, y, p, m);
    two_make_one(Expr::Negative(Box::new(b)), TokenView::Caret, c, m);
    let e = of_two(a, TokenView::Caret, p);
    assert(tokens_in(e) =~= tokens_in(a) + seq![TokenView::Caret] + tokens_in(b) + seq![
        TokenView::Caret,
    ] + tokens_in(c));
    an_expression_comes_to_its_value(tower, e, m);
    let e = of_two(a, y, p);
    assert(tokens_in(e) =~= tokens_in(a) + seq![y] + tokens_in(b) + seq![TokenView::Caret]
        + tokens_in(c));
    an_expression_comes_to_its_value(scaled, e, m);
    let e = of_two(Expr::Negative(Box::new(b)), TokenView::Caret, c);
    an_expression_comes_to_its_value(turned, e, m);
}

// ---------- nothing but expressions ----------

proof fn joined_stands(t: Seq<TokenView>, from: int, mid: int, to: int)
    requires
        0 <= from <= mid < to <= t.len(),
    ensures
        t.subrange(from, to) == t.subrange(from, mid) + seq![t[mid]] + t.subrange(mid + 1, to),
{
    assert(t.subrange(from, to) =~= t.subrange(from, mid) + seq![t[mid]] + t.subrange(mid + 1, to));
}

proof fn enclosed_stand(t: Seq<TokenView>, from: int, to: int)
    requires
        0 <= from < to < t.len(),
    ensures
        t.subrange(from, to + 1) == seq![t[from]] + t.subrange(from + 1, to) + seq![t[to]],
{
    assert(t.subrange(from, to + 1) =~= seq![t[from]] + t.subrange(from + 1, to) + seq![t[to]]);
}

proof fn named_stand(t: Seq<TokenView>, from: int, to: int)
    requires
        0 <= from < from + 1 < to < t.len(),
    ensures
        t.subrange(from, to + 1) == seq![t[from]] + seq![t[from + 1]] + t.subrange(from + 2, to)
            + seq![t[to]],
{
    assert(t.subrange(from, to + 1) =~= seq![t[from]] + seq![t[from + 1]] + t.subrange(from + 2, to)
        + seq![t[to]]);
}

/// `e` is what was read from `pos` on.
spec fn is_read(
    e: Expr,
    most: int,
    r: Result<(Seq<StepView>, int), CalcErrorView>,
    t: Seq<TokenView>,
    pos: int,
) -> bool {
    r matches Ok(x) ==> {
        &&& pos < x.1 <= t.len()
        &&& is_sound(e) && looseness(e) <= most
        &&& tokens_in(e) == t.subrange(pos, x.1)
        &&& program(e) == x.0
    }
}

proof fn sum_is_read(t: Seq<TokenView>, pos: int) -> (e: Expr)
    requires
        pos >= 0,
    ensures
        is_read(e, 4, parse::sum(t, pos), t, pos),
    decreases t.len() - pos, 5int,
{
    let first = product_is_read(t, pos);
    match parse::product(t, pos) {
        Ok(x) => sum_goes_on(t, first, pos, x.1),
        Err(_) => first,
    }
}

proof fn sum_goes_on(t: Seq<TokenView>, first: Expr, from: int, pos: int) -> (e: Expr)
    requires
        0 <= from < pos <= t.len(),
        is_sound(first),
        looseness(first) <= 4,
        tokens_in(first) == t.subrange(from, pos),
    ensures
        is_read(e, 4, parse::sum_rest(t, program(first), pos), t, from),
    decreases t.len() - pos, 0int,
{
    match parse::sum_sign(parse::token_at(t, pos)) {
        None => first,
        Some(op) => {
            let next = product_is_read(t, pos + 1);
            match parse::product(t, pos + 1) {
                Ok(x) => {
                    joined_stands(t, from, pos, x.1);
                    let both = of_two(first, t[pos], next);
                    assert(program(both) == program(first) + x.0 + seq![op]);
                    sum_goes_on(t, both, from, x.1)
                },
                Err(_) => next,
            }
        },
    }
}

proof fn product_is_read(t: Seq<TokenView>, pos: int) -> (e: Expr)
    requires
        pos >= 0,
    ensures
        is_read(e, 3, parse::product(t, pos), t, pos),
    decreases t.len() - pos, 4int,
{
    let first = power_is_read(t, pos);
    match parse::power(t, pos) {
        Ok(x) => product_goes_on(t, first, pos, x.1),
        Err(_) => first,
    }
}

proof fn product_goes_on(t: Seq<TokenView>, first: Expr, from: int, pos: int) -> (e: Expr)
    requires
        0 <= from < pos <= t.len(),
        is_sound(first),
        looseness(first) <= 3,
        tokens_in(first) == t.subrange(from, pos),
    ensures
        is_read(e, 3, parse::product_rest(t, program(first), pos), t, from),
    decreases t.len() - pos, 0int,
{
    match parse::product_sign(parse::token_at(t, pos)) {
        None => first,
        Some(op) => {
            let next = power_is_read(t, pos + 1);
            match parse::power(t, pos + 1) {
                Ok(x) => {
                    joined_stands(t, from, pos, x.1);
                    let both = of_two(first, t[pos], next);
                    assert(program(both) == program(first) + x.0 + seq![op]);
                    product_goes_on(t, both, from, x.1)
                },
                Err(_) => next,
            }
        },
    }
}

proof fn power_is_read(t: Seq<TokenView>, pos: int) -> (e: Expr)
    requires
        pos >= 0,
    ensures
        is_read(e, 2, parse::power(t, pos), t, pos),
    decreases t.len() - pos, 3int,
{
    let base = signed_is_read(t, pos);
    match parse::signed(t, pos) {
        Ok(x) => if parse::token_at(t, x.1) == Some(TokenView::Caret) {
            let top = power_is_read(t, x.1 + 1);
            if let Ok(y) = parse::power(t, x.1 + 1) {
                joined_stands(t, pos, x.1, y.1);
            }
            Expr::Power(Box::new(base), Box::new(top))
        } else {
            base
        },
        Err(_) => base,
    }
}

proof fn signed_is_read(t: Seq<TokenView>, pos: int) -> (e: Expr)
    requires
        pos >= 0,
    ensures
        is_read(e, 1, parse::signed(t, pos), t, pos),
    decreases t.len() - pos, 2int,
{
    match parse::token_at(t, pos) {
        Some(TokenView::Minus) => {
            let x = signed_is_read(t, pos + 1);
            if let Ok(y) = parse::signed(t, pos + 1) {
                joined_stands(t, pos, pos, y.1);
                assert(t.subrange(pos, y.1) =~= seq![TokenView::Minus] + t.subrange(pos + 1, y.1));
            }
            Expr::Negative(Box::new(x))
        },
        Some(TokenView::Plus) => {
            let x = signed_is_read(t, pos + 1);
            if let Ok(y) = parse::signed(t, pos + 1) {
                assert(t.subrange(pos, y.1) =~= seq![TokenView::Plus] + t.subrange(pos + 1, y.1));
            }
            Expr::Positive(Box::new(x))
        },
        _ => item_is_read(t, pos),
    }
}

#[verifier::rlimit(60)]
proof fn bracketed_is_read(t: Seq<TokenView>, pos: int) -> (e: Expr)
    requires
        pos >= 0,
        parse::token_at(t, pos) == Some(TokenView::LParen),
    ensures
        is_read(e, 0, parse::item(t, pos), t, pos),
    decreases t.len() - pos, 0int,
{
    let x = sum_is_read(t, pos + 1);
    let e = Expr::Bracketed(Box::new(x));
    if let Ok(y) = parse::sum(t, pos + 1) {
        if parse::token_at(t, y.1) == Some(TokenView::RParen) {
            enclosed_stand(t, pos, y.1);
            assert(tokens_in(e) == t.subrange(pos, y.1 + 1));
        }
    }
    e
}

#[verifier::rlimit(60)]
proof fn call_is_read(t: Seq<TokenView>, name: Seq<char>, pos: int) -> (e: Expr)
    requires
        pos >= 0,
        parse::token_at(t, pos) == Some(TokenView::Ident(name)),
        parse::token_at(t, pos + 1) == Some(TokenView::LParen),
    ensures
        is_read(e, 0, parse::item(t, pos), t, pos),
    decreases t.len() - pos, 0int,
{
    let first = sum_is_read(t, pos + 2);
    match parse::sum(t, pos + 2) {
        Ok(x) => {
            let one = Args::One(Box::new(first));
            let a = args_go_on(t, one, pos + 2, x.1);
            let e = Expr::Call(name, Box::new(a));
            assert(args_program(one) == x.0);
            if let Ok(all) = parse::arguments_rest(t, x.0, 1, x.1) {
                if parse::token_at(t, all.2) == Some(TokenView::RParen) {
                    named_stand(t, pos, all.2);
                    assert(tokens_in(e) == t.subrange(pos, all.2 + 1));
                }
            }
            e
        },
        Err(_) => first,
    }
}

proof fn item_is_read(t: Seq<TokenView>, pos: int) -> (e: Expr)
    requires
        pos >= 0,
    ensures
        is_read(e, 0, parse::item(t, pos), t, pos),
    decreases t.len() - pos, 1int,
{
    match parse::token_at(t, pos) {
        Some(TokenView::Number(s)) => {
            assert(t.subrange(pos, pos + 1) =~= seq![TokenView::Number(s)]);
            Expr::Number(s)
        },
        Some(TokenView::LParen) => bracketed_is_read(t, pos),
        Some(TokenView::Ident(name)) => if parse::token_at(t, pos + 1) == Some(TokenView::LParen) {
            call_is_read(t, name, pos)
        } else {
            match parse::constant_of(name) {
                Ok(c) => {
                    assert(t.subrange(pos, pos + 1) =~= seq![TokenView::Ident(name)]);
                    Expr::Constant(c)
                },
                Err(_) => Expr::Number(name),
            }
        },
        _ => Expr::Number(Seq::empty()),
    }
}

proof fn args_go_on(t: Seq<TokenView>, first: Args, from: int, pos: int) -> (a: Args)
    requires
        0 <= from < pos <= t.len(),
        are_sound(first),
        tokens_in_args(first) == t.subrange(from, pos),
    ensures
        parse::arguments_rest(t, args_program(first), args_len(first), pos) matches Ok(x) ==> {
            &&& from < x.2 <= t.len()
            &&& are_sound(a)
            &&& tokens_in_args(a) == t.subrange(from, x.2)
            &&& args_program(a) == x.0
            &&& args_len(a) == x.1
        },
    decreases t.len() - pos, 0int,
{
    if parse::token_at(t, pos) == Some(TokenView::Comma) {
        let next = sum_is_read(t, pos + 1);
        match parse::sum(t, pos + 1) {
            Ok(x) => {
                joined_stands(t, from, pos, x.1);
                args_go_on(t, Args::More(Box::new(first), Box::new(next)), from, x.1)
            },
            Err(_) => first,
        }
    } else {
        first
    }
}

/// Only an expression is a program: what compiles has the tokens of some tree, all of
/// them, and comes to that tree's value.
pub proof fn only_expressions_compile<V>(input: Seq<char>, m: Meaning<V>)
    ensures
        crate::calc::compiled(input) matches Ok(code) ==> exists|e: Expr|
            is_sound(e) && lex::tokens_of(input) == Ok::<Seq<TokenView>, CalcErrorView>(
                #[trigger] tokens_in(e),
            ) && worked_out(code, Seq::empty(), m) == seq![value_of(e, m)],
{
    if let Ok(code) = crate::calc::compiled(input) {
        let t = lex::tokens_of(input)->Ok_0;
        let e = sum_is_read(t, 0);
        assert(t.subrange(0, t.len() as int) =~= t);
        an_expression_comes_to_its_value(input, e, m);
        assert(lex::tokens_of(input) == Ok::<Seq<TokenView>, CalcErrorView>(tokens_in(e)));
    }
}

} // verus!
