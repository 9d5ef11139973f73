//! The functions by their names, and how many numbers each takes.

use vstd::prelude::*;
use crate::calc::lex::CalcErrorView;
use crate::calc::parse;
use crate::calc::parse::Function;

verus! {

/// A function of one number, called with `n`.
pub open spec fn of_one(name: Seq<char>, f: Function, n: int) -> Result<Function, CalcErrorView> {
    if n == 1 {
        Ok(f)
    } else {
        Err(CalcErrorView::ArityOne(name, n as nat))
    }
}

/// A function of two numbers, called with `n`.
pub open spec fn of_two(name: Seq<char>, f: Function, n: int) -> Result<Function, CalcErrorView> {
    if n == 2 {
        Ok(f)
    } else {
        Err(CalcErrorView::ArityTwo(name, n as nat))
    }
}

/// A function of one number or two, called with `n`.
pub open spec fn of_one_or_two(name: Seq<char>, f: Function, n: int) -> Result<
    Function,
    CalcErrorView,
> {
    if n == 2 {
        Ok(f)
    } else {
        of_one(name, f, n)
    }
}

/// A function of any numbers, called with `n`.
pub open spec fn of_some(name: Seq<char>, f: Function, n: int) -> Result<Function, CalcErrorView> {
    if n >= 1 {
        Ok(f)
    } else {
        Err(CalcErrorView::NeedsArgs(name))
    }
}

/// A name is in the table's row `i`, and in none before it.
proof fn stands_in_row(name: Seq<char>, i: int, k: int)
    requires
        0 <= k <= i < parse::FUNCTIONS@.len(),
        parse::FUNCTIONS@[i].0@ == name,
        forall|j: int| 0 <= j < i ==> (#[trigger] parse::FUNCTIONS@[j]).0@ != name,
    ensures
        parse::row_from(name, k) == i,
    decreases i - k,
{
    if k < i {
        assert(parse::FUNCTIONS@[k].0@ != name);
        stands_in_row(name, i, k + 1);
    }
}

/// No two rows of the table have one name.
proof fn names_differ(i: int, j: int)
    requires
        0 <= j < i < 24,
    ensures
        parse::FUNCTIONS@[j].0@ != parse::FUNCTIONS@[i].0@,
{
    reveal_strlit("sqrt");
    reveal_strlit("cbrt");
    reveal_strlit("abs");
    reveal_strlit("exp");
    reveal_strlit("ln");
    reveal_strlit("log2");
    reveal_strlit("log");
    reveal_strlit("log10");
    reveal_strlit("sin");
    reveal_strlit("cos");
    reveal_strlit("tan");
    reveal_strlit("asin");
    reveal_strlit("acos");
    reveal_strlit("atan");
    reveal_strlit("atan2");
    reveal_strlit("sinh");
    reveal_strlit("cosh");
    reveal_strlit("tanh");
    reveal_strlit("floor");
    reveal_strlit("ceil");
    reveal_strlit("round");
    reveal_strlit("pow");
    reveal_strlit("min");
    reveal_strlit("max");
    assert("sqrt"@.len() == 4);
    assert("cbrt"@.len() == 4);
    assert("abs"@.len() == 3);
    assert("exp"@.len() == 3);
    assert("ln"@.len() == 2);
    assert("log2"@.len() == 4);
    assert("log"@.len() == 3);
    assert("log10"@.len() == 5);
    assert("sin"@.len() == 3);
    assert("cos"@.len() == 3);
    assert("tan"@.len() == 3);
    assert("asin"@.len() == 4);
    assert("acos"@.len() == 4);
    assert("atan"@.len() == 4);
    assert("atan2"@.len() == 5);
    assert("sinh"@.len() == 4);
    assert("cosh"@.len() == 4);
    assert("tanh"@.len() == 4);
    assert("floor"@.len() == 5);
    assert("ceil"@.len() == 4);
    assert("round"@.len() == 5);
    assert("pow"@.len() == 3);
    assert("min"@.len() == 3);
    assert("max"@.len() == 3);
    assert("sqrt"@[0] == 's' && "sqrt"@[1] == 'q' && "sqrt"@[2] == 'r' && "sqrt"@[3] == 't');
    assert("cbrt"@[0] == 'c' && "cbrt"@[1] == 'b' && "cbrt"@[2] == 'r' && "cbrt"@[3] == 't');
    assert("abs"@[0] == 'a' && "abs"@[1] == 'b' && "abs"@[2] == 's');
    assert("exp"@[0] == 'e' && "exp"@[1] == 'x' && "exp"@[2] == 'p');
    assert("ln"@[0] == 'l' && "ln"@[1] == 'n');
    assert("log2"@[0] == 'l' && "log2"@[1] == 'o' && "log2"@[2] == 'g' && "log2"@[3] == '2');
    assert("log"@[0] == 'l' && "log"@[1] == 'o' && "log"@[2] == 'g');
    assert("log10"@[0] == 'l' && "log10"@[1] == 'o' && "log10"@[2] == 'g' && "log10"@[3] == '1' && "log10"@[4] == '0');
    assert("sin"@[0] == 's' && "sin"@[1] == 'i' && "sin"@[2] == 'n');
    assert("cos"@[0] == 'c' && "cos"@[1] == 'o' && "cos"@[2] == 's');
    assert("tan"@[0] == 't' && "tan"@[1] == 'a' && "tan"@[2] == 'n');
    assert("asin"@[0] == 'a' && "asin"@[1] == 's' && "asin"@[2] == 'i' && "asin"@[3] == 'n');
    assert("acos"@[0] == 'a' && "acos"@[1] == 'c' && "acos"@[2] == 'o' && "acos"@[3] == 's');
    assert("atan"@[0] == 'a' && "atan"@[1] == 't' && "atan"@[2] == 'a' && "atan"@[3] == 'n');
    assert("atan2"@[0] == 'a' && "atan2"@[1] == 't' && "atan2"@[2] == 'a' && "atan2"@[3] == 'n' && "atan2"@[4] == '2');
    assert("sinh"@[0] == 's' && "sinh"@[1] == 'i' && "sinh"@[2] == 'n' && "sinh"@[3] == 'h');
    assert("cosh"@[0] == 'c' && "cosh"@[1] == 'o' && "cosh"@[2] == 's' && "cosh"@[3] == 'h');
    assert("tanh"@[0] == 't' && "tanh"@[1] == 'a' && "tanh"@[2] == 'n' && "tanh"@[3] == 'h');
    assert("floor"@[0] == 'f' && "floor"@[1] == 'l' && "floor"@[2] == 'o' && "floor"@[3] == 'o' && "floor"@[4] == 'r');
    assert("ceil"@[0] == 'c' && "ceil"@[1] == 'e' && "ceil"@[2] == 'i' && "ceil"@[3] == 'l');
    assert("round"@[0] == 'r' && "round"@[1] == 'o' && "round"@[2] == 'u' && "round"@[3] == 'n' && "round"@[4] == 'd');
    assert("pow"@[0] == 'p' && "pow"@[1] == 'o' && "pow"@[2] == 'w');
    assert("min"@[0] == 'm' && "min"@[1] == 'i' && "min"@[2] == 'n');
    assert("max"@[0] == 'm' && "max"@[1] == 'a' && "max"@[2] == 'x');
}

proof fn row_of(i: int)
    requires
        0 <= i < 24,
    ensures
        parse::row_from(parse::FUNCTIONS@[i].0@, 0) == i,
{
    let name = parse::FUNCTIONS@[i].0@;
    assert forall|j: int| 0 <= j < i implies (#[trigger] parse::FUNCTIONS@[j]).0@ != name by {
        names_differ(i, j);
    }
    stands_in_row(name, i, 0);
}

/// Each function is called by its name, with as many numbers as it takes; with any other
/// number of them the call is wrong, and is told how many it wants.
pub proof fn functions_are_called_by_their_names(n: int)
    ensures
        parse::called("sqrt"@, n) == of_one("sqrt"@, Function::Sqrt, n),
        parse::called("cbrt"@, n) == of_one("cbrt"@, Function::Cbrt, n),
        parse::called("abs"@, n) == of_one("abs"@, Function::Abs, n),
        parse::called("exp"@, n) == of_one("exp"@, Function::Exp, n),
        parse::called("ln"@, n) == of_one("ln"@, Function::Ln, n),
        parse::called("log2"@, n) == of_one("log2"@, Function::Log2, n),
        parse::called("log"@, n) == of_one_or_two("log"@, Function::Log, n),
        parse::called("log10"@, n) == of_one_or_two("log10"@, Function::Log, n),
        parse::called("sin"@, n) == of_one("sin"@, Function::Sin, n),
        parse::called("cos"@, n) == of_one("cos"@, Function::Cos, n),
        parse::called("tan"@, n) == of_one("tan"@, Function::Tan, n),
        parse::called("asin"@, n) == of_one("asin"@, Function::Asin, n),
        parse::called("acos"@, n) == of_one("acos"@, Function::Acos, n),
        parse::called("atan"@, n) == of_one("atan"@, Function::Atan, n),
        parse::called("atan2"@, n) == of_two("atan2"@, Function::Atan2, n),
        parse::called("sinh"@, n) == of_one("sinh"@, Function::Sinh, n),
        parse::called("cosh"@, n) == of_one("cosh"@, Function::Cosh, n),
        parse::called("tanh"@, n) == of_one("tanh"@, Function::Tanh, n),
        parse::called("floor"@, n) == of_one("floor"@, Function::Floor, n),
        parse::called("ceil"@, n) == of_one("ceil"@, Function::Ceil, n),
        parse::called("round"@, n) == of_one("round"@, Function::Round, n),
        parse::called("pow"@, n) == of_two("pow"@, Function::Pow, n),
        parse::called("min"@, n) == of_some("min"@, Function::Min, n),
        parse::called("max"@, n) == of_some("max"@, Function::Max, n),
{
    row_of(0);
    row_of(1);
    row_of(2);
    row_of(3);
    row_of(4);
    row_of(5);
    row_of(6);
    row_of(7);
    row_of(8);
    row_of(9);
    row_of(10);
    row_of(11);
    row_of(12);
    row_of(13);
    row_of(14);
    row_of(15);
    row_of(16);
    row_of(17);
    row_of(18);
    row_of(19);
    row_of(20);
    row_of(21);
    row_of(22);
    row_of(23);
}

/// A name of no function calls none.
pub proof fn other_names_call_nothing(name: Seq<char>, n: int)
    requires
        name != "sqrt"@,
        name != "cbrt"@,
        name != "abs"@,
        name != "exp"@,
        name != "ln"@,
        name != "log2"@,
        name != "log"@,
        name != "log10"@,
        name != "sin"@,
        name != "cos"@,
        name != "tan"@,
        name != "asin"@,
        name != "acos"@,
        name != "atan"@,
        name != "atan2"@,
        name != "sinh"@,
        name != "cosh"@,
        name != "tanh"@,
        name != "floor"@,
        name != "ceil"@,
        name != "round"@,
        name != "pow"@,
        name != "min"@,
        name != "max"@,
    ensures
        parse::called(name, n) == Err::<Function, CalcErrorView>(CalcErrorView::UnknownFunc(name)),
{
    stands_in_none(name, 0);
}

proof fn stands_in_none(name: Seq<char>, k: int)
    requires
        0 <= k <= 24,
        forall|j: int| 0 <= j < 24 ==> (#[trigger] parse::FUNCTIONS@[j]).0@ != name,
    ensures
        parse::row_from(name, k) == 24,
    decreases 24 - k,
{
    if k < 24 {
        assert(parse::FUNCTIONS@[k].0@ != name);
        stands_in_none(name, k + 1);
    }
}

} // verus!
