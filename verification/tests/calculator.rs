use deskcalc::calculator::buffers::{
    AdditionBuffer, Collapse, ExponentBuffer, MultiplicationBuffer,
};
use deskcalc::calculator::expr::{BinaryOp, Expr, UnaryOp, E, MINUS_ONE, ONE, PI, TAU, TWO, ZERO};
use deskcalc::calculator::num_types::NumType;
use deskcalc::calculator::request::assignment_target;
use deskcalc::calculator::{
    calculate, calculate_assign, get_function_params, parse, parse_to_vec, settle, Answer,
    CalculatorError,
};
use deskcalc::log::built_in::{
    get_constants_hashmap, get_default_commands_hashmap, get_default_functions_hashmap, BuiltIn,
    Command,
};
use deskcalc::log::symbol_type::SymbolType;
use deskcalc::log::Log;

// What the host of the library does: the arithmetic.

fn compute(e: &Expr) -> f64 {
    match e {
        Expr::Literal(text) => text.iter().collect::<String>().parse().unwrap(),
        Expr::Bits(bits) => f64::from_bits(*bits),
        Expr::Unary(op, a) => {
            let a = compute(a);
            match op {
                UnaryOp::Neg => -a,
                UnaryOp::Sin => a.sin(),
                UnaryOp::Cos => a.cos(),
                UnaryOp::Tan => a.tan(),
                UnaryOp::Asin => a.asin(),
                UnaryOp::Acos => a.acos(),
                UnaryOp::Atan => a.atan(),
                UnaryOp::Abs => a.abs(),
                UnaryOp::Round => a.round(),
                UnaryOp::Ceil => a.ceil(),
                UnaryOp::Floor => a.floor(),
                UnaryOp::Ln => a.ln(),
                UnaryOp::Sqrt => a.sqrt(),
                UnaryOp::ToRadians => a.to_radians(),
                UnaryOp::ToDegrees => a.to_degrees(),
            }
        }
        Expr::Binary(op, a, b) => {
            let a = compute(a);
            let b = compute(b);
            match op {
                BinaryOp::Add => a + b,
                BinaryOp::Mul => a * b,
                BinaryOp::Div => a / b,
                BinaryOp::Pow => a.powf(b),
                BinaryOp::Log => a.log(b),
            }
        }
    }
}

#[derive(Debug, PartialEq)]
enum Computed {
    Scalar(f64),
    Vector(Vec<f64>),
}

use Computed::{Scalar, Vector};

fn computed(n: &NumType) -> Computed {
    match n {
        NumType::Scalar(e) => Scalar(compute(e)),
        NumType::Vector(v) => Vector(v.iter().map(compute).collect()),
    }
}

fn given(c: Computed) -> NumType {
    match c {
        Scalar(x) => NumType::Scalar(Expr::Bits(x.to_bits())),
        Vector(v) => NumType::Vector(v.iter().map(|x| Expr::Bits(x.to_bits())).collect()),
    }
}

fn shown(answer: Answer) -> String {
    let parts: Vec<String> = match &answer {
        Answer::Text(_) => Vec::new(),
        Answer::Value(n) => match computed(n) {
            Scalar(x) => vec![x.to_string()],
            Vector(v) => v.iter().map(|x| x.to_string()).collect(),
        },
    };
    answer.display(&parts)
}

fn chars(s: &str) -> Vec<char> {
    s.chars().collect()
}

fn value_of(s: &str, log: &Log) -> Computed {
    computed(&parse(&chars(s), log).unwrap())
}

fn error_of(s: &str, log: &Log) -> String {
    parse(&chars(s), log).unwrap_err().to_string()
}

// The calculator, line by line.

#[test]
fn one_plus_one() {
    let result = shown(calculate("1 + 1", &Log::default()));
    assert_eq!(result, " = 2")
}

#[test]
fn two_minus_one() {
    let result = shown(calculate("2 - 1", &Log::default()));
    assert_eq!(result, " = 1")
}

#[test]
fn two_plus_neg_1() {
    let result = shown(calculate("2 + -1", &Log::default()));
    assert_eq!(result, " = 1")
}

#[test]
fn neg_3() {
    let result = shown(calculate("-3", &Log::default()));
    assert_eq!(result, " = -3")
}

#[test]
fn pemdas() {
    let result = shown(calculate("1 + 2 * 3 / 2 + 1", &Log::default()));
    assert_eq!(result, " = 5")
}

#[test]
fn parantheses() {
    let result = shown(calculate("3 * (2 + 1)", &Log::default()));
    assert_eq!(result, " = 9")
}

#[test]
fn big_numbers() {
    let result = shown(calculate("3.253000 + 1450", &Log::default()));
    assert_eq!(result, " = 1453.253")
}

#[test]
fn variable() {
    let mut log = Log::new();
    calculate_assign("#variable = 5 * 2", &mut log);
    let result = shown(calculate("variable + 2", &log));
    assert_eq!(result, " = 12");
}

#[test]
fn consts() {
    let log = Log::new();
    let result = shown(calculate("PI", &log));
    assert_eq!(result, " = ".to_string() + &std::f64::consts::PI.to_string());
}

#[test]
fn exponents() {
    let log = Log::new();
    let result = shown(calculate("3 ^ 3", &log));
    assert_eq!(result, " = 27");
}

#[test]
fn exponents_order() {
    let log = Log::new();
    let result = shown(calculate("3 + 2^3*4/2 - 1", &log));
    assert_eq!(result, " = 18");
}

#[test]
fn default_funcs() {
    let log = Log::new();
    // A call without its closing parenthesis takes all that is left:
    // 1 + (2 * 1) = 3
    let result = shown(calculate("sin(PI/2) + abs(-2) * sin(PI/2", &log));
    assert_eq!(result, " = 3")
}

#[test]
fn multiple_fn_args() {
    let log = Log::new();
    let result = shown(calculate("log(10, 5+5", &log));
    assert_eq!(result, " = 1")
}

#[test]
fn vector_math() {
    assert_eq!(
        computed(&(given(Vector(vec![1.0, 1.0])) * given(Scalar(2.0)))),
        Vector(vec![2.0, 2.0])
    );
    assert_eq!(
        computed(&(given(Vector(vec![1.0, 1.0])) + given(Scalar(2.0)))),
        Vector(vec![3.0, 3.0])
    );
    assert_eq!(
        computed(&(given(Vector(vec![1.0, 1.0])) * given(Vector(vec![1.0, 2.0])))),
        Vector(vec![1.0, 2.0])
    );
}

// Sums, differences, products and quotients of two numbers.

#[test]
fn two_numbers_with_one_operator() {
    let log = Log::default();
    let pairs = [(1.5, 2.25), (0.0, 7.0), (1453.253, 0.001), (3.0, 4.0), (1e3, 0.5)];
    for (a, b) in pairs {
        assert_eq!(value_of(&format!("{a}+{b}"), &log), Scalar(a + b));
        assert_eq!(value_of(&format!("{a}-{b}"), &log), Scalar(a - b));
        assert_eq!(value_of(&format!("{a}*{b}"), &log), Scalar(a * b));
        assert_eq!(value_of(&format!("{a}/{b}"), &log), Scalar(a / b));
    }
}

#[test]
fn two_numbers_with_signs() {
    let log = Log::default();
    let pairs = [(-1.5, 2.25), (1.5, -2.25), (-3.0, -4.0), (-0.5, 8.0)];
    for (a, b) in pairs {
        assert_eq!(value_of(&format!("{a}+{b}"), &log), Scalar(a + b));
        assert_eq!(value_of(&format!("{a}-{b}"), &log), Scalar(a - b));
        assert_eq!(value_of(&format!("{a}*{b}"), &log), Scalar(a * b));
    }
    assert_eq!(value_of("-6/2", &log), Scalar(-3.0));
    assert_eq!(value_of("-1.5/0.5", &log), Scalar(-3.0));
}

#[test]
fn a_quotient_is_a_product_with_the_inverse() {
    let log = Log::default();
    assert_eq!(value_of("5/3", &log), Scalar(5.0 * (1.0 / 3.0)));
    assert_eq!(shown(calculate("5/3", &log)), " = 1.6666666666666665");
    assert_eq!(shown(calculate("49/49", &log)), " = 0.9999999999999999");
    assert_eq!(shown(calculate("1/0", &log)), " = inf");
}

#[test]
fn the_sum_of_two_literals_is_one_expression() {
    let log = Log::default();
    let lit = |s: &str| Box::new(Expr::Literal(chars(s)));
    let bits = |b: u64| Box::new(Expr::Bits(b));
    let mul = |a, b| Box::new(Expr::Binary(BinaryOp::Mul, a, b));
    let add = |a, b| Box::new(Expr::Binary(BinaryOp::Add, a, b));
    let expected = add(
        add(bits(ZERO), mul(bits(ONE), lit("1.5"))),
        mul(bits(ONE), lit("2")),
    );
    assert_eq!(parse(&chars("1.5+2"), &log).unwrap(), NumType::Scalar(*expected));
}

#[test]
fn the_stored_numbers_are_what_they_are_called() {
    assert_eq!(f64::from_bits(ZERO), 0.0);
    assert_eq!(f64::from_bits(ONE), 1.0);
    assert_eq!(f64::from_bits(TWO), 2.0);
    assert_eq!(f64::from_bits(MINUS_ONE), -1.0);
    assert_eq!(f64::from_bits(PI), std::f64::consts::PI);
    assert_eq!(f64::from_bits(E), std::f64::consts::E);
    assert_eq!(f64::from_bits(TAU), std::f64::consts::TAU);
}

// Precedence and signs.

#[test]
fn a_power_binds_tighter_than_a_product() {
    let log = Log::default();
    assert_eq!(value_of("2*3^2", &log), Scalar(18.0));
    assert_eq!(value_of("2^3*2", &log), Scalar(16.0));
}

#[test]
fn powers_fold_from_the_left() {
    let log = Log::default();
    assert_eq!(value_of("2^3^2", &log), Scalar(64.0));
    assert_eq!(value_of("(2)(3)", &log), Scalar(8.0));
}

#[test]
fn a_point_behind_a_number_asks_for_a_component() {
    let log = Log::default();
    assert_eq!(value_of("2^0.5", &log), Scalar(2f64.powf(0.5)));
    assert_eq!(
        error_of("2^.5", &log),
        "Error: Cannot access components of a scalar value"
    );
    assert_eq!(value_of("2*.5", &log), Scalar(1.0));
}

#[test]
fn a_minus_behind_an_operator_negates() {
    let log = Log::default();
    assert_eq!(value_of("2*-3", &log), Scalar(-6.0));
    assert_eq!(value_of("--3", &log), Scalar(3.0));
    assert_eq!(value_of("5-3-1", &log), Scalar(1.0));
}

#[test]
fn a_sign_behind_a_division_takes_the_division() {
    let log = Log::default();
    assert_eq!(value_of("6/2", &log), Scalar(3.0));
    assert_eq!(value_of("6/-2", &log), Scalar(-12.0));
}

#[test]
fn nothing_evaluates_to_one() {
    let log = Log::default();
    assert_eq!(value_of("", &log), Scalar(1.0));
    assert_eq!(value_of("()", &log), Scalar(1.0));
    assert_eq!(value_of("2+", &log), Scalar(3.0));
}

#[test]
fn unknown_characters_are_passed_over() {
    let log = Log::default();
    assert_eq!(value_of("2?+!3", &log), Scalar(5.0));
    assert_eq!(value_of("2)+3", &log), Scalar(5.0));
}

// Parentheses.

#[test]
fn nested_parentheses() {
    let log = Log::default();
    assert_eq!(value_of("((1+2)*3)", &log), Scalar(9.0));
    assert_eq!(value_of("2*(3+(4*5))", &log), Scalar(46.0));
}

#[test]
fn an_open_parenthesis_runs_to_the_end() {
    let log = Log::new();
    assert_eq!(value_of("3*(2+1", &log), value_of("3*(2+1)", &log));
    assert_eq!(value_of("3*(2+1", &log), Scalar(9.0));
    assert_eq!(value_of("sin(pi/2", &log), value_of("sin(pi/2)", &log));
    assert_eq!(value_of("log(10,5+5", &log), Scalar(1.0));
}

// Literals.

#[test]
fn decimal_literals() {
    let log = Log::default();
    assert_eq!(value_of(".5", &log), Scalar(0.5));
    assert_eq!(value_of("5.", &log), Scalar(5.0));
    assert_eq!(value_of("0.25+.25", &log), Scalar(0.5));
}

#[test]
fn a_literal_with_two_points_is_no_number() {
    let log = Log::default();
    assert_eq!(error_of("1.2.3", &log), "Error: Invalid number");
    assert_eq!(error_of(".", &log), "Error: Invalid number");
    assert_eq!(error_of("1+..", &log), "Error: Invalid number");
    assert!(matches!(
        parse(&chars("1..2"), &log),
        Err(CalculatorError::ParseNumberErrror)
    ));
}

// Vectors.

#[test]
fn vector_literals() {
    let log = Log::default();
    assert_eq!(value_of("[1,2,3]", &log), Vector(vec![1.0, 2.0, 3.0]));
    assert_eq!(value_of("[1+1,2*3]", &log), Vector(vec![2.0, 6.0]));
    assert_eq!(value_of("[-1,2", &log), Vector(vec![-1.0, 2.0]));
    assert_eq!(value_of("[]", &log), Vector(vec![1.0]));
    assert_eq!(value_of("[1,]", &log), Vector(vec![1.0, 1.0]));
}

#[test]
fn vectors_broadcast() {
    let log = Log::default();
    assert_eq!(value_of("[1,2]*2", &log), Vector(vec![2.0, 4.0]));
    assert_eq!(value_of("2*[1,2]", &log), Vector(vec![2.0, 4.0]));
    assert_eq!(value_of("[1,2]+3", &log), Vector(vec![4.0, 5.0]));
    assert_eq!(value_of("[2,3]^2", &log), Vector(vec![4.0, 9.0]));
    assert_eq!(value_of("[4,6]/2", &log), Vector(vec![2.0, 3.0]));
}

#[test]
fn a_short_second_vector_is_filled_with_ones() {
    assert_eq!(
        computed(&(given(Vector(vec![1.0, 2.0, 3.0])) + given(Vector(vec![10.0])))),
        Vector(vec![11.0, 3.0, 4.0])
    );
    assert_eq!(
        computed(&(given(Vector(vec![1.0, 2.0, 3.0])) * given(Vector(vec![10.0])))),
        Vector(vec![10.0, 2.0, 3.0])
    );
    assert_eq!(
        computed(&(given(Vector(vec![2.0])) * given(Vector(vec![3.0, 4.0])))),
        Vector(vec![6.0])
    );
    assert_eq!(
        computed(&given(Vector(vec![2.0, 3.0])).pow(&given(Vector(vec![3.0])))),
        Vector(vec![8.0, 3.0])
    );
}

#[test]
fn a_scalar_on_the_left_stays_on_the_left() {
    assert_eq!(
        computed(&(given(Scalar(1.0)) / given(Vector(vec![2.0, 4.0])))),
        Vector(vec![0.5, 0.25])
    );
    assert_eq!(
        computed(&(given(Scalar(2.0)) / given(Vector(vec![4.0, 8.0])))),
        Vector(vec![0.5, 0.25])
    );
    assert_eq!(
        computed(&given(Scalar(2.0)).pow(&given(Vector(vec![1.0, 3.0])))),
        Vector(vec![2.0, 8.0])
    );
    assert_eq!(
        computed(&given(Scalar(2.0)).pow(&given(Vector(vec![3.0, 4.0])))),
        Vector(vec![8.0, 16.0])
    );
    assert_eq!(
        computed(&(given(Vector(vec![4.0, 8.0])) / given(Scalar(2.0)))),
        Vector(vec![2.0, 4.0])
    );
    assert_eq!(
        computed(&given(Vector(vec![3.0, 4.0])).pow(&given(Scalar(2.0)))),
        Vector(vec![9.0, 16.0])
    );
    assert_eq!(
        given(Scalar(2.0)).pow(&given(Vector(vec![3.0]))),
        NumType::Vector(vec![Expr::Binary(
            BinaryOp::Pow,
            Box::new(Expr::Bits(2f64.to_bits())),
            Box::new(Expr::Bits(3f64.to_bits())),
        )])
    );
}

#[test]
fn a_division_by_a_vector_divides_by_each_component() {
    let log = Log::default();
    assert_eq!(value_of("8/[2,4]", &log), Vector(vec![4.0, 2.0]));
    assert_eq!(value_of("1/[2,4]", &log), Vector(vec![0.5, 0.25]));
    assert_eq!(value_of("[8,8]/[2,4]", &log), Vector(vec![4.0, 2.0]));
    assert_eq!(value_of("2^[1,3]", &log), Vector(vec![2.0, 8.0]));
    assert_eq!(value_of("[1,3]^2", &log), Vector(vec![1.0, 9.0]));
}

#[test]
fn scalars_and_negation() {
    assert_eq!(computed(&(given(Scalar(6.0)) / given(Scalar(4.0)))), Scalar(1.5));
    assert_eq!(computed(&(given(Scalar(6.0)) * &given(Scalar(4.0)))), Scalar(24.0));
    assert_eq!(computed(&(given(Scalar(6.0)) + &given(Scalar(4.0)))), Scalar(10.0));
    assert_eq!(computed(&(-given(Scalar(6.0)))), Scalar(-6.0));
    assert_eq!(
        computed(&(-given(Vector(vec![1.0, -2.0])))),
        Vector(vec![-1.0, 2.0])
    );
    assert_eq!(computed(&given(Scalar(2.0)).pow(&given(Scalar(10.0)))), Scalar(1024.0));
}

#[test]
fn scalar_value_tells_scalars_from_vectors() {
    assert_eq!(
        given(Scalar(2.5)).scalar_value(),
        Some(Expr::Bits(2.5f64.to_bits()))
    );
    assert_eq!(given(Vector(vec![2.5])).scalar_value(), None);
}

#[test]
fn a_copy_is_equal() {
    let v = parse(&chars("[1,2*3]"), &Log::default()).unwrap();
    assert_eq!(v.clone(), v);
    assert_eq!(v.duplicate(), v);
}

#[test]
fn a_vector_in_a_vector_is_refused() {
    let log = Log::default();
    assert_eq!(
        error_of("[1,[2,3]]", &log),
        "Error: Vectors may not contain other vectors"
    );
    assert!(matches!(
        parse_to_vec(&chars("[1"), &log),
        Err(CalculatorError::RecursiveVectors)
    ));
}

#[test]
fn a_comma_inside_brackets_does_not_split() {
    let log = Log::new();
    // One component: the magnitude of [3,4].
    assert_eq!(
        computed(&parse_to_vec(&chars("mag([3,4"), &log).unwrap()),
        Vector(vec![5.0])
    );
    assert_eq!(
        computed(&parse_to_vec(&chars("1,2"), &log).unwrap()),
        Vector(vec![1.0, 2.0])
    );
}

#[test]
fn components_by_letter_and_by_number() {
    let log = Log::default();
    assert_eq!(value_of("[4,5,6].x", &log), Scalar(4.0));
    assert_eq!(value_of("[4,5,6].y", &log), Scalar(5.0));
    assert_eq!(value_of("[4,5,6].z", &log), Scalar(6.0));
    assert_eq!(value_of("[4,5,6].0", &log), Scalar(4.0));
    assert_eq!(value_of("[4,5,6].2", &log), Scalar(6.0));
    assert_eq!(value_of("[4,5,6].+1", &log), Scalar(5.0));
    assert_eq!(value_of("[4,5,6].", &log), Scalar(4.0));
    assert_eq!(value_of("[4,5,6].y*2", &log), Scalar(10.0));
    assert_eq!(value_of("[4,5,6,7,8,9,10,11,12,13,14].10", &log), Scalar(14.0));
}

#[test]
fn a_component_that_is_not_there() {
    let log = Log::default();
    assert_eq!(error_of("[4,5].z", &log), "Error: Component does not exist");
    assert_eq!(error_of("[4,5].2", &log), "Error: Component does not exist");
    assert!(matches!(
        parse(&chars("[4,5].7"), &log),
        Err(CalculatorError::ComponentDNE)
    ));
}

#[test]
fn a_component_of_what_is_no_vector() {
    let log = Log::default();
    let message = "Error: Cannot access components of a scalar value";
    assert_eq!(error_of("(3).x", &log), message);
    assert_eq!(error_of("[4,5].x.y", &log), message);
    assert_eq!(error_of("[4,5].q", &log), message);
    assert_eq!(error_of("[4,5].+", &log), message);
    assert_eq!(error_of("[4,5].-1", &log), message);
    assert_eq!(
        error_of("[4,5].99999999999999999999999999999", &log),
        message
    );
    assert!(matches!(
        parse(&chars("(3).x"), &log),
        Err(CalculatorError::ComponentAccessError)
    ));
}

// Names.

#[test]
fn an_unknown_name() {
    let log = Log::new();
    assert_eq!(error_of("2+foo", &log), "Error: Could not find symbol \"foo\"");
    assert_eq!(
        error_of("pi", &Log::default()),
        "Error: Could not find symbol \"pi\""
    );
    assert!(matches!(
        parse(&chars("foo"), &log),
        Err(CalculatorError::UnknownSymbol(name)) if name == "foo"
    ));
}

#[test]
fn constants_in_any_case() {
    let log = Log::new();
    let pi = " = ".to_string() + &std::f64::consts::PI.to_string();
    assert_eq!(shown(calculate("pi", &log)), pi);
    assert_eq!(shown(calculate("Pi", &log)), pi);
    assert_eq!(shown(calculate("pI", &log)), pi);
    assert_eq!(
        shown(calculate("E", &log)),
        " = ".to_string() + &std::f64::consts::E.to_string()
    );
    assert_eq!(
        shown(calculate("Tau", &log)),
        " = ".to_string() + &std::f64::consts::TAU.to_string()
    );
}

#[test]
fn a_constant_comes_before_a_variable() {
    let mut log = Log::new();
    calculate_assign("#pi = 3", &mut log);
    assert_eq!(value_of("pi", &log), Scalar(std::f64::consts::PI));
    log.add_var("sin".to_string(), &given(Scalar(7.0)));
    assert_eq!(value_of("sin", &log), Scalar(7.0));
}

#[test]
fn search_symbol_finds_each_kind() {
    let mut log = Log::new();
    log.add_var("v".to_string(), &given(Vector(vec![1.0, 2.0])));
    assert!(matches!(
        log.search_symbol("tau"),
        Some(SymbolType::Variable(n)) if computed(n) == Scalar(std::f64::consts::TAU)
    ));
    assert!(matches!(
        log.search_symbol("v"),
        Some(SymbolType::Variable(n)) if computed(n) == Vector(vec![1.0, 2.0])
    ));
    assert!(matches!(
        log.search_symbol("mag"),
        Some(SymbolType::DefaultFn(BuiltIn::Mag))
    ));
    assert!(log.search_symbol("w").is_none());
    assert!(log.search_symbol("").is_none());
}

// Functions.

#[test]
fn functions_of_one_scalar() {
    let log = Log::new();
    assert_eq!(value_of("sqrt(16)", &log), Scalar(4.0));
    assert_eq!(value_of("cos(0)", &log), Scalar(1.0));
    assert_eq!(value_of("tan(0)", &log), Scalar(0.0));
    assert_eq!(value_of("asin(1)", &log), Scalar(1f64.asin()));
    assert_eq!(value_of("acos(1)", &log), Scalar(0.0));
    assert_eq!(value_of("atan(1)", &log), Scalar(1f64.atan()));
    assert_eq!(value_of("ln(e)", &log), Scalar(1.0));
    assert_eq!(value_of("deg(pi)", &log), Scalar(180.0));
    assert_eq!(value_of("rad(180)", &log), Scalar(std::f64::consts::PI));
    assert_eq!(value_of("sin(0)+1", &log), Scalar(1.0));
}

#[test]
fn functions_of_each_component() {
    let log = Log::new();
    assert_eq!(value_of("abs(-2.5)", &log), Scalar(2.5));
    assert_eq!(value_of("round(2.5)", &log), Scalar(3.0));
    assert_eq!(value_of("ceil(2.1)", &log), Scalar(3.0));
    assert_eq!(value_of("floor(2.7)", &log), Scalar(2.0));
    assert_eq!(value_of("abs([-1,2])", &log), Vector(vec![1.0, 2.0]));
    assert_eq!(value_of("round([1.4,1.6])", &log), Vector(vec![1.0, 2.0]));
    assert_eq!(value_of("ceil([1.4,1.6])", &log), Vector(vec![2.0, 2.0]));
    assert_eq!(value_of("floor([1.4,1.6])", &log), Vector(vec![1.0, 1.0]));
}

#[test]
fn the_magnitude_of_a_vector() {
    let log = Log::new();
    assert_eq!(value_of("mag([3,4])", &log), Scalar(5.0));
    assert_eq!(value_of("mag([3,4])*2", &log), Scalar(10.0));
    assert_eq!(
        computed(&BuiltIn::Mag.apply(vec![given(Vector(vec![]))]).unwrap()),
        Scalar(0.0)
    );
}

#[test]
fn further_arguments_are_passed_over() {
    let log = Log::new();
    assert_eq!(value_of("sqrt(16,2,3)", &log), Scalar(4.0));
    assert_eq!(value_of("log(100,10,7)", &log), Scalar(2.0));
}

#[test]
fn a_function_without_what_it_takes() {
    let log = Log::new();
    assert_eq!(
        error_of("sin([1,2])", &log),
        "Error: Function \"sin\" has missing or invalid parameters"
    );
    assert_eq!(
        error_of("sqrt", &log),
        "Error: Function \"sqrt\" has missing or invalid parameters"
    );
    assert_eq!(
        error_of("log(10)", &log),
        "Error: Function \"log\" has missing or invalid parameters"
    );
    assert_eq!(
        error_of("log(10,[1,2])", &log),
        "Error: Function \"log\" has missing or invalid parameters"
    );
    assert_eq!(
        error_of("mag(3)", &log),
        "Error: Function \"mag\" has missing or invalid parameters"
    );
    assert_eq!(
        error_of("abs", &log),
        "Error: Function \"abs\" has missing or invalid parameters"
    );
    assert!(matches!(
        BuiltIn::Ln.apply(vec![]),
        Err(CalculatorError::MissingFunctionParameters(name)) if name == "ln"
    ));
}

#[test]
fn arguments_are_cut_at_commas_outside_brackets() {
    let log = Log::new();
    let args = get_function_params(&chars("(1,[2,3],4"), &log).unwrap();
    assert_eq!(
        args.iter().map(computed).collect::<Vec<_>>(),
        vec![Scalar(1.0), Vector(vec![2.0, 3.0]), Scalar(4.0)]
    );
    let args = get_function_params(&chars("(1,,2"), &log).unwrap();
    assert_eq!(
        args.iter().map(computed).collect::<Vec<_>>(),
        vec![Scalar(1.0), Scalar(2.0)]
    );
    assert!(get_function_params(&chars(""), &log).unwrap().is_empty());
    assert!(matches!(
        get_function_params(&chars("(1,2..,x"), &log),
        Err(CalculatorError::ParseNumberErrror)
    ));
}

#[test]
fn an_error_inside_comes_out() {
    let log = Log::new();
    assert_eq!(error_of("1+(2*(3+foo))", &log), "Error: Could not find symbol \"foo\"");
    assert_eq!(error_of("[1,2..]", &log), "Error: Invalid number");
    assert_eq!(error_of("sin(1..)", &log), "Error: Invalid number");
    assert_eq!(
        error_of("sqrt(mag(2))", &log),
        "Error: Function \"mag\" has missing or invalid parameters"
    );
}

// The two entry points.

#[test]
fn an_empty_line() {
    let mut log = Log::new();
    assert_eq!(shown(calculate("", &log)), "...");
    assert_eq!(shown(calculate("   ", &log)), "...");
    assert_eq!(shown(calculate(" \t\n", &log)), "...");
    assert_eq!(shown(calculate_assign("", &mut log)), "...");
    assert_eq!(shown(calculate_assign("  ", &mut log)), "...");
    assert_eq!(value_of("\\", &log), Scalar(1.0));
}

#[test]
fn white_space_is_stripped() {
    let log = Log::new();
    assert_eq!(shown(calculate(" 1 2 + 3\t4 ", &log)), " = 46");
    assert_eq!(shown(calculate("s i n ( 0 )", &log)), " = 0");
}

#[test]
fn an_assignment_without_its_sign() {
    let mut log = Log::new();
    let message = "Error: Missing \"=\" after variable name";
    assert_eq!(shown(calculate("#name", &log)), message);
    assert_eq!(shown(calculate_assign("#name", &mut log)), message);
    assert_eq!(shown(calculate_assign("# name 5", &mut log)), message);
    assert!(log.search_symbol("name").is_none());
    assert_eq!(value_of("\\", &log), Scalar(1.0));
    assert!(log.history.is_empty());
}

#[test]
fn an_assignment_binds_the_name() {
    let mut log = Log::new();
    assert_eq!(shown(calculate_assign("# V = [1, 2] * 3", &mut log)), " = [3, 6]");
    assert_eq!(value_of("v", &log), Vector(vec![3.0, 6.0]));
    assert_eq!(shown(calculate("v.y + 1", &log)), " = 7");
    assert_eq!(shown(calculate_assign("#v=v.x", &mut log)), " = 3");
    assert_eq!(value_of("v", &log), Scalar(3.0));
}

#[test]
fn a_preview_binds_nothing() {
    let log = Log::new();
    assert_eq!(shown(calculate("#v = 5 * 2", &log)), " = 10");
    assert!(log.search_symbol("v").is_none());
    assert_eq!(value_of("\\", &log), Scalar(1.0));
}

#[test]
fn a_failed_assignment_binds_nothing() {
    let mut log = Log::new();
    assert_eq!(
        shown(calculate_assign("#v = 5 * q", &mut log)),
        "Error: Could not find symbol \"q\""
    );
    assert!(log.search_symbol("v").is_none());
    assert_eq!(value_of("\\", &log), Scalar(1.0));
}

#[test]
fn the_last_result() {
    let mut log = Log::new();
    assert_eq!(shown(calculate("\\", &log)), " = 1");
    assert_eq!(shown(calculate_assign("5 * 2", &mut log)), " = 10");
    assert_eq!(shown(calculate("\\ + 1", &log)), " = 11");
    assert_eq!(shown(calculate_assign("\\ * \\", &mut log)), " = 100");
    assert_eq!(computed(&log.last_number), Scalar(100.0));
    assert_eq!(computed(log.last()), Scalar(100.0));
    log.set_last(given(Scalar(4.0)));
    assert_eq!(shown(calculate("\\", &log)), " = 4");
}

#[test]
fn computed_numbers_take_the_place_of_expressions() {
    let mut log = Log::new();
    let line = "#v = [1, 2] * 3";
    let answer = calculate_assign(line, &mut log);
    let Answer::Value(value) = &answer else {
        panic!("a value was expected")
    };
    assert_ne!(*value, given(Vector(vec![3.0, 6.0])));
    settle(line, &mut log, given(computed(value)));
    assert_eq!(log.last_number, given(Vector(vec![3.0, 6.0])));
    assert!(matches!(
        log.search_symbol("v"),
        Some(SymbolType::Variable(n)) if *n == given(Vector(vec![3.0, 6.0]))
    ));
    settle("2 + 2", &mut log, given(Scalar(4.0)));
    assert_eq!(log.last_number, given(Scalar(4.0)));
    assert_eq!(value_of("v", &log), Vector(vec![3.0, 6.0]));
    settle("#w", &mut log, given(Scalar(5.0)));
    assert!(log.search_symbol("w").is_none());
}

#[test]
fn the_target_of_an_assignment() {
    assert_eq!(assignment_target("# Speed = 3"), Some("speed".to_string()));
    assert_eq!(assignment_target("#=3"), Some(String::new()));
    assert_eq!(assignment_target("#a=b=3"), Some("a".to_string()));
    assert_eq!(assignment_target("#speed"), None);
    assert_eq!(assignment_target("speed = 3"), None);
    assert_eq!(assignment_target("/clear"), None);
    assert_eq!(assignment_target(""), None);
}

#[test]
fn commands_are_looked_up_and_then_run() {
    let mut log = Log::new();
    calculate_assign("#v = 2", &mut log);
    log.push_results("#v = 2", " = 2");
    assert_eq!(shown(calculate("/clear", &log)), "Enter to run command...");
    assert_eq!(shown(calculate("/ Clear Vars", &log)), "Enter to run command...");
    assert!(log.search_symbol("v").is_some());
    assert_eq!(log.history.len(), 1);

    assert_eq!(
        shown(calculate_assign("/clearhistory", &mut log)),
        "Calculator history cleared"
    );
    assert!(log.history.is_empty());
    assert!(log.search_symbol("v").is_some());

    log.push_results("1", " = 1");
    assert_eq!(
        shown(calculate_assign("/clearvars", &mut log)),
        "Variable data cleared"
    );
    assert!(log.search_symbol("v").is_none());
    assert_eq!(log.history.len(), 1);

    calculate_assign("#w = 2", &mut log);
    assert_eq!(shown(calculate_assign("/clear", &mut log)), "All data cleared");
    assert!(log.search_symbol("w").is_none());
    assert!(log.history.is_empty());
    assert!(log.search_symbol("pi").is_some());
}

#[test]
fn a_command_that_does_not_exist() {
    let mut log = Log::new();
    let message = "Error: Command \"reset\" not recognized";
    assert_eq!(shown(calculate("/reset", &log)), message);
    assert_eq!(shown(calculate_assign("/reset", &mut log)), message);
    assert_eq!(
        shown(calculate("/clear", &Log::default())),
        "Error: Command \"clear\" not recognized"
    );
    assert_eq!(
        CalculatorError::InvalidCommand("x".to_string()).to_string(),
        "Error: Command \"x\" not recognized"
    );
}

// The environment.

#[test]
fn the_history_grows_at_its_end() {
    let mut log = Log::new();
    log.push_results("1+1", " = 2");
    log.push_results("2+2", " = 4");
    assert_eq!(
        log.history,
        vec![
            ("1+1".to_string(), " = 2".to_string()),
            ("2+2".to_string(), " = 4".to_string())
        ]
    );
    log.clear_history();
    assert!(log.history.is_empty());
}

#[test]
fn variables_are_replaced_and_cleared() {
    let mut log = Log::default();
    log.add_var("a".to_string(), &given(Scalar(1.0)));
    log.add_var("b".to_string(), &given(Scalar(2.0)));
    log.add_var("a".to_string(), &given(Scalar(3.0)));
    assert_eq!(value_of("a+b", &log), Scalar(5.0));
    log.clear_vars();
    assert!(log.search_symbol("a").is_none());
    log.add_var("a".to_string(), &given(Scalar(1.0)));
    log.push_results("x", "y");
    log.clear();
    assert!(log.search_symbol("a").is_none());
    assert!(log.history.is_empty());
}

#[test]
fn the_built_in_tables() {
    let constants = get_constants_hashmap();
    assert_eq!(
        constants.get("pi").map(computed),
        Some(Scalar(std::f64::consts::PI))
    );
    assert_eq!(
        constants.get("e").map(computed),
        Some(Scalar(std::f64::consts::E))
    );
    assert_eq!(
        constants.get("tau").map(computed),
        Some(Scalar(std::f64::consts::TAU))
    );
    assert!(constants.get("phi").is_none());

    let functions = get_default_functions_hashmap();
    let names = [
        "sin", "cos", "tan", "asin", "acos", "atan", "abs", "round", "ceil", "floor", "log", "ln",
        "sqrt", "rad", "deg", "mag",
    ];
    for name in names {
        assert_eq!(functions.get(name).map(|f| f.name_text()), Some(name));
    }
    assert!(functions.get("exp").is_none());

    let commands = get_default_commands_hashmap();
    assert_eq!(commands.get("clear"), Some(&Command::Clear));
    assert_eq!(commands.get("clearvars"), Some(&Command::ClearVars));
    assert_eq!(commands.get("clearhistory"), Some(&Command::ClearHistory));
    assert!(commands.get("quit").is_none());
    let log = Log::new();
    assert_eq!(log.search_command("clear"), Some(Command::Clear));
    assert_eq!(log.search_command("quit"), None);
}

// The accumulators.

#[test]
fn the_exponent_buffer_folds_from_the_left() {
    let mut e = ExponentBuffer::default();
    assert_eq!(computed(&e.collapse()), Scalar(1.0));
    e.push(given(Scalar(7.0)));
    assert_eq!(computed(&e.collapse()), Scalar(7.0));
    e.push(given(Scalar(2.0)));
    e.push(given(Scalar(3.0)));
    e.push(given(Scalar(2.0)));
    assert_eq!(computed(&e.collapse()), Scalar(64.0));
    assert_eq!(computed(&e.collapse()), Scalar(1.0));
}

#[test]
fn the_back_of_the_exponent_buffer() {
    let mut e = ExponentBuffer::new();
    assert!(e.get_back().is_none());
    e.remove_back();
    e.push(given(Scalar(2.0)));
    e.push(given(Scalar(3.0)));
    assert_eq!(e.get_back().map(computed), Some(Scalar(3.0)));
    e.remove_back();
    assert_eq!(e.get_back().map(computed), Some(Scalar(2.0)));
    assert_eq!(computed(&e.collapse()), Scalar(2.0));
}

#[test]
fn the_multiplication_buffer_divides_once() {
    let mut m = MultiplicationBuffer::default();
    assert_eq!(computed(&m.collapse()), Scalar(1.0));
    m.push(given(Scalar(6.0)));
    m.divide_next();
    m.push(given(Scalar(4.0)));
    m.push(given(Scalar(2.0)));
    assert_eq!(computed(&m.collapse()), Scalar(3.0));
    assert_eq!(computed(&m.collapse()), Scalar(1.0));
    m.divide_next();
    m.push(given(Vector(vec![2.0, 4.0])));
    assert_eq!(computed(&m.collapse()), Vector(vec![0.5, 0.25]));
}

#[test]
fn a_pending_division_can_be_read() {
    let mut m = MultiplicationBuffer::new();
    assert!(!m.is_dividing());
    m.divide_next();
    assert!(m.is_dividing());
    m.push(given(Scalar(2.0)));
    assert!(!m.is_dividing());
    m.divide_next();
    assert_eq!(computed(&m.collapse()), Scalar(0.5));
    assert!(m.is_dividing());
}

#[test]
fn a_value_counts_its_numbers() {
    assert_eq!(given(Scalar(2.5)).count(), 1);
    assert_eq!(given(Vector(vec![])).count(), 0);
    assert_eq!(given(Vector(vec![1.0, 2.0, 3.0])).count(), 3);
}

#[test]
fn the_addition_buffer_adds() {
    let mut a = AdditionBuffer::default();
    assert_eq!(computed(&a.collapse()), Scalar(0.0));
    a.push(given(Scalar(1.5)));
    a.push(given(Scalar(2.5)));
    a.push(given(Vector(vec![1.0, 2.0])));
    assert_eq!(computed(&a.collapse()), Vector(vec![5.0, 6.0]));
    assert_eq!(computed(&a.collapse()), Scalar(0.0));
}

// How values are written.

#[test]
fn values_are_written() {
    let one = vec!["2.5".to_string()];
    let three = vec!["1".to_string(), "2".to_string(), "3.5".to_string()];
    assert_eq!(given(Scalar(2.5)).display(&one), "2.5");
    assert_eq!(given(Vector(vec![1.0, 2.0, 3.5])).display(&three), "[1, 2, 3.5]");
    assert_eq!(given(Vector(vec![])).display(&Vec::new()), "[]");
    assert_eq!(given(Vector(vec![2.5])).display(&one), "[2.5]");
    assert_eq!(Answer::Value(given(Scalar(2.5))).display(&one), " = 2.5");
    assert_eq!(
        Answer::Value(given(Vector(vec![1.0, 2.0, 3.5]))).display(&three),
        " = [1, 2, 3.5]"
    );
    assert_eq!(Answer::Text("...".to_string()).display(&three), "...");
}

#[test]
fn every_error_has_its_line() {
    assert_eq!(
        CalculatorError::UnknownSymbol("q".to_string()).to_string(),
        "Error: Could not find symbol \"q\""
    );
    assert_eq!(
        CalculatorError::ParseNumberErrror.to_string(),
        "Error: Invalid number"
    );
    assert_eq!(
        CalculatorError::MissingFunctionParameters("sin".to_string()).to_string(),
        "Error: Function \"sin\" has missing or invalid parameters"
    );
    assert_eq!(
        CalculatorError::InvalidCommand("c".to_string()).to_string(),
        "Error: Command \"c\" not recognized"
    );
    assert_eq!(
        CalculatorError::RecursiveVectors.to_string(),
        "Error: Vectors may not contain other vectors"
    );
    assert_eq!(
        CalculatorError::ComponentAccessError.to_string(),
        "Error: Cannot access components of a scalar value"
    );
    assert_eq!(
        CalculatorError::ComponentDNE.to_string(),
        "Error: Component does not exist"
    );
}
