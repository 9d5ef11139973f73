use agent_tools::calc::lex::CalcError;
use agent_tools::calc::parse::{apply_function, Constant, Function, Step};
use agent_tools::calc::{compile, decimal_places, format_number, Calculate, Figure};
use agent_tools::i18n::{Lang, Locale};
use agent_tools::json::Json;

fn ru() -> Locale {
    Lang::Ru.locale()
}

fn call(f: Function, x: &[f64]) -> f64 {
    match f {
        Function::Sqrt => x[0].sqrt(),
        Function::Cbrt => x[0].cbrt(),
        Function::Abs => x[0].abs(),
        Function::Exp => x[0].exp(),
        Function::Ln => x[0].ln(),
        Function::Log2 => x[0].log2(),
        Function::Log if x.len() == 1 => x[0].log10(),
        Function::Log => x[0].log(x[1]),
        Function::Sin => x[0].sin(),
        Function::Cos => x[0].cos(),
        Function::Tan => x[0].tan(),
        Function::Asin => x[0].asin(),
        Function::Acos => x[0].acos(),
        Function::Atan => x[0].atan(),
        Function::Atan2 => x[0].atan2(x[1]),
        Function::Sinh => x[0].sinh(),
        Function::Cosh => x[0].cosh(),
        Function::Tanh => x[0].tanh(),
        Function::Floor => x[0].floor(),
        Function::Ceil => x[0].ceil(),
        Function::Round => x[0].round(),
        Function::Pow => x[0].powf(x[1]),
        Function::Min => x.iter().copied().fold(f64::INFINITY, f64::min),
        Function::Max => x.iter().copied().fold(f64::NEG_INFINITY, f64::max),
    }
}

/// Runs a compiled expression on a stack.
fn eval(input: &str) -> Result<f64, CalcError> {
    let mut stack: Vec<f64> = vec![];
    for step in compile(input)? {
        let value = match step {
            Step::Number(text) => text.parse::<f64>().unwrap(),
            Step::Constant(Constant::Pi) => std::f64::consts::PI,
            Step::Constant(Constant::E) => std::f64::consts::E,
            Step::Constant(Constant::Tau) => std::f64::consts::TAU,
            Step::Negate => -stack.pop().unwrap(),
            Step::Call(f, n) => {
                let args = stack.split_off(stack.len() - n);
                call(f, &args)
            }
            two => {
                let b = stack.pop().unwrap();
                let a = stack.pop().unwrap();
                match two {
                    Step::Sum => a + b,
                    Step::Difference => a - b,
                    Step::Product => a * b,
                    Step::Quotient => a / b,
                    Step::Remainder => a % b,
                    _ => a.powf(b),
                }
            }
        };
        stack.push(value);
    }
    assert_eq!(stack.len(), 1, "one value is left");
    Ok(stack[0])
}

fn approx(a: f64, b: f64) -> bool {
    (a - b).abs() < 1e-9
}

#[test]
fn arithmetic_and_precedence() {
    assert!(approx(eval("2 + 3 * 4").unwrap(), 14.0));
    assert!(approx(eval("(2 + 3) * 4").unwrap(), 20.0));
    assert!(approx(eval("10 / 4").unwrap(), 2.5));
    assert!(approx(eval("10 % 3").unwrap(), 1.0));
    assert!(approx(eval("-5 + 2").unwrap(), -3.0));
    assert!(approx(eval("2 - -3").unwrap(), 5.0));
}

#[test]
fn power_is_right_associative() {
    assert!(approx(eval("2^3^2").unwrap(), 512.0));
    assert!(approx(eval("2^10").unwrap(), 1024.0));
}

#[test]
fn functions_and_constants() {
    assert!(approx(eval("sqrt(16)").unwrap(), 4.0));
    assert!(approx(eval("sin(pi/2)").unwrap(), 1.0));
    assert!(approx(eval("max(3, 7, 5)").unwrap(), 7.0));
    assert!(approx(eval("min(3, 7, 5)").unwrap(), 3.0));
    assert!(approx(eval("log(1000)").unwrap(), 3.0));
    assert!(approx(eval("log(8, 2)").unwrap(), 3.0));
    assert!(approx(eval("pow(2, 10)").unwrap(), 1024.0));
    assert!(approx(eval("abs(-4.5)").unwrap(), 4.5));
}

#[test]
fn scientific_notation() {
    assert!(approx(eval("1e3").unwrap(), 1000.0));
    assert!(approx(eval("2.5e-2").unwrap(), 0.025));
}

#[test]
fn errors_on_bad_input() {
    assert!(eval("").is_err());
    assert!(eval("2 +").is_err());
    assert!(eval("2 ) (").is_err());
    assert!(eval("foobar(2)").is_err());
    assert!(eval("nope").is_err());
    assert!(eval("sqrt(1, 2)").is_err());
    assert!(eval("@").is_err());
    assert!(eval("2 3").is_err());
}

#[test]
fn every_error_has_its_input() {
    assert!(matches!(compile(""), Err(CalcError::Empty)));
    assert!(matches!(compile("1.2.3"), Err(CalcError::BadNumber(n)) if n == "1.2.3"));
    assert!(matches!(compile("@"), Err(CalcError::UnknownChar('@'))));
    assert!(matches!(compile("2 +"), Err(CalcError::Unexpected(None))));
    assert!(matches!(compile("(2"), Err(CalcError::Expected(None))));
    assert!(matches!(compile("nope"), Err(CalcError::UnknownConst(n)) if n == "nope"));
    assert!(matches!(compile("sqrt(1, 2)"), Err(CalcError::ArityOne(n, 2)) if n == "sqrt"));
    assert!(matches!(compile("pow(1)"), Err(CalcError::ArityTwo(n, 1)) if n == "pow"));
    assert!(matches!(apply_function("min", 0), Err(CalcError::NeedsArgs(n)) if n == "min"));
    assert!(matches!(compile("foobar(2)"), Err(CalcError::UnknownFunc(n)) if n == "foobar"));
    assert!(matches!(compile("2 3"), Err(CalcError::ExtraTokens)));
    assert!(apply_function("log", 3).is_err());
}

#[test]
fn letters_of_any_script_make_a_name() {
    assert!(matches!(compile("число"), Err(CalcError::UnknownConst(n)) if n == "число"));
    let e = compile("(2 3").unwrap_err();
    assert!(e.text("3", &ru()).contains('3'));
}

#[test]
fn format_number_trims() {
    assert_eq!(format_number(&Figure::Whole(4), &ru()), "4");
    assert_eq!(format_number(&Figure::Fixed("2.500000000000".into()), &ru()), "2.5");
    assert_eq!(format_number(&Figure::Whole(-3), &ru()), "-3");
}

#[test]
fn figures_that_are_no_numbers_are_named() {
    let nan = format_number(&Figure::NotANumber, &ru());
    let up = format_number(&Figure::Infinite { negative: false }, &ru());
    let down = format_number(&Figure::Infinite { negative: true }, &ru());
    assert!(nan != up && up != down && !nan.is_empty());
}

#[test]
fn tool_returns_result_string() {
    let args = Json::from_text(r#"{"expression": "(2 + 3) * 4"}"#).unwrap();
    let expr = Calculate.arguments(&args, &ru()).unwrap();
    let value = eval(&expr).unwrap();
    let out = Calculate.outcome(&expr, &Ok(Figure::Whole(value as i64)), &ru());
    assert!(out.result.contains("20"), "got: {}", out.result);
    assert!(out.effects.is_empty());
}

#[test]
fn tool_reports_error_not_panic() {
    let e = compile("2 +").unwrap_err();
    let text = e.text("", &ru());
    let out = Calculate.outcome("2 +", &Err(text), &ru());
    assert!(out.result.contains("Не удалось вычислить"), "got: {}", out.result);
}

#[test]
fn tool_rejects_empty_expression() {
    let args = Json::from_text(r#"{"expression": "  "}"#).unwrap();
    assert!(Calculate.arguments(&args, &ru()).is_err());
}

#[test]
fn a_fraction_shows_twelve_digits_at_most() {
    let shown = |v: f64, exponent: i32| {
        let places = decimal_places(exponent);
        format_number(&Figure::Fixed(format!("{v:.places$}")), &ru())
    };
    assert_eq!(shown(10.0 / 3.0, 0), "3.33333333333");
    assert_eq!(shown(1000.0 / 3.0, 2), "333.333333333");
    assert_eq!(shown(1.0 / 3.0, -1), "0.333333333333");
    assert_eq!(shown(1.0 / 16.0, -2), "0.0625");
    assert_eq!(decimal_places(11), 0);
    assert_eq!(decimal_places(40), 0);
    let whole = Figure::Fixed("1000000000000000000000".into());
    assert_eq!(format_number(&whole, &ru()), "1000000000000000000000");
}
