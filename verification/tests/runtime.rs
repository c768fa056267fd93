use tinyscript::lexer::tokenize;
use tinyscript::machine::EvalError;
use tinyscript::parser::{Argument, Expression, LiteralVariable, Parser};
use tinyscript::runtime::{Action, Event, Request, Runtime};
use tinyscript::types::{Operators, Types};

/// What a run of a program gave.
struct Outcome {
    output: String,
    prints: Vec<String>,
    error: Option<EvalError>,
    runtime: Runtime,
}

fn arithmetic(operator: Operators, left: f64, right: f64) -> f64 {
    match operator {
        Operators::Plus => left + right,
        Operators::Minus => left - right,
        Operators::Asterisk => left * right,
        Operators::Slash => left / right,
        Operators::Percent => left % right,
        _ => panic!("no arithmetic operator"),
    }
}

fn comparison(operator: Operators, left: f64, right: f64) -> bool {
    match operator {
        Operators::Lt => left < right,
        Operators::Le => left <= right,
        Operators::Gt => left > right,
        Operators::Ge => left >= right,
        Operators::Eq => left == right,
        Operators::Ne => left != right,
        _ => panic!("no comparison operator"),
    }
}

/// A host that prints into a string, reads from a list of lines and computes
/// with floating-point numbers.
fn host(request: Request, input: &mut Vec<String>, prints: &mut Vec<String>) -> Event {
    match request {
        Request::Print(text) => {
            prints.push(text);
            Event::Printed
        }
        Request::ReadLine => {
            if input.is_empty() {
                Event::Line(String::new())
            } else {
                Event::Line(input.remove(0))
            }
        }
        Request::Number(text) => match text.parse::<f64>() {
            Ok(number) => Event::Number(number.to_string()),
            Err(_) => Event::NotNumeric,
        },
        Request::Arithmetic { operator, left, right } => {
            match (left.parse::<f64>(), right.parse::<f64>()) {
                (Ok(left), Ok(right)) => {
                    Event::Number(arithmetic(operator, left, right).to_string())
                }
                _ => Event::NotNumeric,
            }
        }
        Request::Compare { operator, left, right } => {
            match (left.parse::<f64>(), right.parse::<f64>()) {
                (Ok(left), Ok(right)) => Event::Truth(comparison(operator, left, right)),
                _ => Event::NotNumeric,
            }
        }
    }
}

fn run_tree(expressions: Vec<Argument>, lines: &[&str]) -> Outcome {
    let mut input: Vec<String> = lines.iter().map(|line| line.to_string()).collect();
    let mut prints = Vec::new();
    let mut runtime = Runtime::new(expressions);
    let mut action = runtime.run(1000);
    let mut rounds = 0;
    let error = loop {
        rounds += 1;
        assert!(rounds < 100_000, "the program does not end");
        action = match action {
            Action::Continue => runtime.run(1000),
            Action::Ask(request) => {
                let event = host(request, &mut input, &mut prints);
                runtime.resume(event);
                runtime.run(1000)
            }
            Action::Finished => break None,
            Action::Failed(error) => break Some(error),
        };
    };
    Outcome { output: prints.concat(), prints, error, runtime }
}

fn run_text(source: &str, lines: &[&str]) -> Outcome {
    let tokens = tokenize(&source.to_string()).expect("the text has tokens only");
    let expressions = Parser::new(tokens).parse().expect("the tokens are a program");
    run_tree(expressions, lines)
}

fn output_of(source: &str) -> String {
    let outcome = run_text(source, &[]);
    assert_eq!(outcome.error, None, "{}", source);
    outcome.output
}

fn error_of(source: &str) -> EvalError {
    run_text(source, &[]).error.expect("the program is given up")
}

fn literal(kind: Types, text: &str) -> Argument {
    Argument::LiteralVariable(LiteralVariable { var_type: kind, value: text.to_string() })
}

fn call(function: &str, arguments: Vec<Argument>) -> Argument {
    Argument::Expression(Expression { function: function.to_string(), arguments })
}

#[test]
fn addition_is_displayed_as_floating_point_text() {
    assert_eq!(output_of("(display (+ 2 3))"), "5 ");
    assert_eq!(output_of("(display (+ 0.1 0.2))"), "0.30000000000000004 ");
    assert_eq!(output_of("(display (+ 1.5 1))"), "2.5 ");
}

#[test]
fn subtraction_and_division_accumulate_from_the_left() {
    assert_eq!(output_of("(display (- 10 3 2))"), "5 ");
    assert_eq!(output_of("(display (/ 100 5 2))"), "10 ");
    assert_eq!(output_of("(display (- 2 10))"), "-8 ");
    assert_eq!(output_of("(display (/ 1 4))"), "0.25 ");
}

#[test]
fn the_requests_of_a_subtraction_come_in_order() {
    let mut runtime = Runtime::new(vec![call(
        "-",
        vec![literal(Types::Int, "10"), literal(Types::Int, "3"), literal(Types::Int, "2")],
    )]);
    match runtime.run(100) {
        Action::Ask(Request::Number(text)) => assert_eq!(text, "10"),
        other => panic!("{:?}", other),
    }
    runtime.resume(Event::Number("10".to_string()));
    match runtime.run(100) {
        Action::Ask(Request::Arithmetic { operator, left, right }) => {
            assert_eq!(operator, Operators::Minus);
            assert_eq!((left.as_str(), right.as_str()), ("10", "3"));
        }
        other => panic!("{:?}", other),
    }
    runtime.resume(Event::Number("7".to_string()));
    match runtime.run(100) {
        Action::Ask(Request::Arithmetic { operator, left, right }) => {
            assert_eq!(operator, Operators::Minus);
            assert_eq!((left.as_str(), right.as_str()), ("7", "2"));
        }
        other => panic!("{:?}", other),
    }
    runtime.resume(Event::Number("5".to_string()));
    assert!(matches!(runtime.run(100), Action::Finished));
}

#[test]
fn a_single_operand_is_given_as_a_number() {
    assert_eq!(output_of("(display (- 007))"), "7 ");
    assert_eq!(output_of("(display (/ 8.0))"), "8 ");
    assert_eq!(output_of("(display (+ 007))"), "7 ");
    assert_eq!(output_of("(display (* 2.50))"), "2.5 ");
}

#[test]
fn sum_and_product_of_nothing() {
    assert_eq!(output_of("(display (+))"), "0 ");
    assert_eq!(output_of("(display (*))"), "1 ");
    let sum = run_tree(
        vec![call("define", vec![literal(Types::Unknown, "s"), call("+", vec![])])],
        &[],
    );
    let bound = sum.runtime.variable("s").unwrap();
    assert_eq!(bound.var_type, Types::Float);
    assert_eq!(bound.value, "0");
}

#[test]
fn product_and_remainder() {
    assert_eq!(output_of("(display (* 2 3 4))"), "24 ");
    assert_eq!(output_of("(display (% 10 3))"), "1 ");
    assert_eq!(output_of("(display (% 7.5 2))"), "1.5 ");
}

#[test]
fn arguments_that_give_nothing_are_passed_over() {
    assert_eq!(output_of("(display (+ 1 (begin) 2))"), "3 ");
    assert_eq!(output_of("(display (* 2 (begin) 5))"), "10 ");
    assert_eq!(output_of("(display (- 9 (begin) 4))"), "5 ");
    assert_eq!(output_of("(display (/ 9 (begin) 3))"), "3 ");
}

#[test]
fn the_first_operand_of_minus_and_slash_must_be_there() {
    assert_eq!(error_of("(- (begin) 1)"), EvalError::NotALiteral);
    assert_eq!(error_of("(/ (begin) 1)"), EvalError::NotALiteral);
    assert_eq!(error_of("(-)"), EvalError::MissingArgument);
    assert_eq!(error_of("(/)"), EvalError::MissingArgument);
}

#[test]
fn division_by_zero_is_fatal() {
    assert_eq!(error_of("(/ 1 0)"), EvalError::DivisionByZero);
    assert_eq!(error_of("(/ 1 0.0)"), EvalError::DivisionByZero);
    assert_eq!(error_of("(/ 8 2 (- 1 1))"), EvalError::DivisionByZero);
    let outcome = run_text("(display \"a\") (/ 1 0) (display \"b\")", &[]);
    assert_eq!(outcome.error, Some(EvalError::DivisionByZero));
    assert_eq!(outcome.output, "a ");
}

#[test]
fn the_divisor_is_asked_about_before_the_division() {
    let mut runtime = Runtime::new(vec![call(
        "/",
        vec![literal(Types::Int, "6"), literal(Types::Int, "3")],
    )]);
    assert!(matches!(runtime.run(100), Action::Ask(Request::Number(_))));
    runtime.resume(Event::Number("6".to_string()));
    match runtime.run(100) {
        Action::Ask(Request::Compare { operator, left, right }) => {
            assert_eq!(operator, Operators::Eq);
            assert_eq!((left.as_str(), right.as_str()), ("3", "0"));
        }
        other => panic!("{:?}", other),
    }
    match runtime.resume(Event::Truth(false)) {
        Action::Ask(Request::Arithmetic { operator, left, right }) => {
            assert_eq!(operator, Operators::Slash);
            assert_eq!((left.as_str(), right.as_str()), ("6", "3"));
        }
        other => panic!("{:?}", other),
    }
}

#[test]
fn operands_that_are_no_numbers_are_fatal() {
    assert_eq!(error_of("(+ 1 \"a\")"), EvalError::NotNumeric);
    assert_eq!(error_of("(- \"a\")"), EvalError::NotNumeric);
    assert_eq!(error_of("(* foo 2)"), EvalError::NotNumeric);
    assert_eq!(error_of("(% 1 \"\")"), EvalError::NotNumeric);
    assert_eq!(error_of("(< 1 \"b\")"), EvalError::NotNumeric);
    assert_eq!(error_of("(/ 1 \"b\")"), EvalError::NotNumeric);
}

#[test]
fn define_binds_and_overwrites() {
    let outcome = run_text("(define x 5) (display x) (define x 7) (display x)", &[]);
    assert_eq!(outcome.error, None);
    assert_eq!(outcome.prints, vec!["5 ", "7 "]);
    let bound = outcome.runtime.variable("x").unwrap();
    assert_eq!(bound.value, "7");
    assert_eq!(bound.var_type, Types::Int);
}

#[test]
fn define_takes_value_and_kind_of_the_result() {
    let outcome = run_text("(define x \"s\") (define x (+ 1 2)) (define y x)", &[]);
    assert_eq!(outcome.error, None);
    let x = outcome.runtime.variable("x").unwrap();
    assert_eq!((x.var_type, x.value.as_str()), (Types::Float, "3"));
    let y = outcome.runtime.variable("y").unwrap();
    assert_eq!((y.var_type, y.value.as_str()), (Types::Float, "3"));
    assert!(outcome.runtime.variable("z").is_none());
}

#[test]
fn define_needs_a_name_and_a_value() {
    assert_eq!(error_of("(define x)"), EvalError::MissingArgument);
    assert_eq!(error_of("(define)"), EvalError::MissingArgument);
    assert_eq!(error_of("(define (+ 1 2) 3)"), EvalError::InvalidName);
    assert_eq!(error_of("(define x (begin))"), EvalError::NotALiteral);
    assert_eq!(error_of("(define x (display 1))"), EvalError::NotALiteral);
}

#[test]
fn a_bare_word_is_a_variable_if_bound_and_else_itself() {
    assert_eq!(output_of("(display hello)"), "hello ");
    assert_eq!(output_of("(define hello 3) (display hello)"), "3 ");
    assert_eq!(output_of("(define hello 3) (display \"hello\")"), "3 ");
    assert_eq!(output_of("(define 5 6) (display (+ 5 1))"), "7 ");
}

#[test]
fn if_takes_the_branch_that_the_condition_selects() {
    assert_eq!(output_of("(if (< 1 2) (display \"a\") (display \"b\"))"), "a ");
    assert_eq!(output_of("(if (< 2 1) (display \"a\") (display \"b\"))"), "b ");
    assert_eq!(output_of("(if (< 2 1) (display \"a\"))"), "");
    assert_eq!(output_of("(if (< 1 2) (display \"a\"))"), "a ");
    assert_eq!(output_of("(if 1 (display \"a\") (display \"b\"))"), "a ");
    assert_eq!(output_of("(if 0 (display \"a\") (display \"b\"))"), "b ");
    assert_eq!(output_of("(if 1.0 (display \"a\") (display \"b\"))"), "b ");
}

#[test]
fn if_gives_the_value_of_its_branch() {
    assert_eq!(output_of("(display (if (true) 10 20))"), "10 ");
    assert_eq!(output_of("(display (if (false) 10 20))"), "20 ");
    assert_eq!(output_of("(display (+ 1 (if (false) 10)))"), "1 ");
}

#[test]
fn if_needs_a_condition_and_a_branch() {
    assert_eq!(error_of("(if)"), EvalError::MissingArgument);
    assert_eq!(error_of("(if 1)"), EvalError::MissingArgument);
    assert_eq!(error_of("(if (begin) 1 2)"), EvalError::NotALiteral);
}

#[test]
fn while_repeats_its_body_while_the_condition_holds() {
    let outcome = run_text(
        "(define x 0) (while (< x 3) (begin (display x) (define x (+ x 1))))",
        &[],
    );
    assert_eq!(outcome.error, None);
    assert_eq!(outcome.prints, vec!["0 ", "1 ", "2 "]);
    assert_eq!(outcome.runtime.variable("x").unwrap().value, "3");
}

#[test]
fn while_with_a_false_condition_does_nothing() {
    assert_eq!(output_of("(while (false) (display 1))"), "");
    assert_eq!(output_of("(display (+ 1 (while (false) 2)))"), "1 ");
}

#[test]
fn while_needs_a_condition_and_a_body() {
    assert_eq!(error_of("(while)"), EvalError::MissingArgument);
    assert_eq!(error_of("(while (false))"), EvalError::MissingArgument);
    assert_eq!(error_of("(while (begin) 1)"), EvalError::NotALiteral);
}

#[test]
fn a_loop_without_end_is_paused_at_the_limit() {
    let tokens = tokenize(&"(while (true) (begin))".to_string()).unwrap();
    let mut runtime = Runtime::new(Parser::new(tokens).parse().unwrap());
    for _ in 0..50 {
        assert!(matches!(runtime.run(100), Action::Continue));
    }
    assert!(matches!(runtime.run(0), Action::Continue));
}

#[test]
fn a_stray_closing_parenthesis_does_nothing() {
    let outcome = run_text(")", &[]);
    assert_eq!(outcome.error, None);
    assert!(outcome.prints.is_empty());
    assert_eq!(output_of("(display 1) ) (display 2)"), "1 2 ");
}

#[test]
fn display_splits_at_breaks() {
    let outcome = run_text("(display \"line1\\nline2\")", &[]);
    assert_eq!(outcome.error, None);
    assert_eq!(outcome.prints, vec!["line1\nline2\n"]);
}

#[test]
fn display_joins_its_arguments() {
    assert_eq!(output_of("(display \"a\" \"b\" 3)"), "ab3 ");
    assert_eq!(output_of("(display \"x = \" (+ 1 1) \"\\n\")"), "x = 2\n");
    assert_eq!(output_of("(display)"), " ");
}

#[test]
fn display_takes_one_line_feed_from_the_end_of_each_argument() {
    let outcome = run_tree(
        vec![call(
            "display",
            vec![literal(Types::String, "a\n"), literal(Types::String, "b\n\n")],
        )],
        &[],
    );
    assert_eq!(outcome.prints, vec!["ab\n "]);
}

#[test]
fn display_of_nothing_is_fatal() {
    assert_eq!(error_of("(display (begin))"), EvalError::NotALiteral);
    assert_eq!(error_of("(display 1 (newline))"), EvalError::NotALiteral);
}

#[test]
fn newline_prints_a_line_break() {
    let outcome = run_text("(display \"a\") (newline) (display \"b\")", &[]);
    assert_eq!(outcome.prints, vec!["a ", "\n", "b "]);
}

#[test]
fn begin_evaluates_in_order_and_gives_nothing() {
    assert_eq!(output_of("(begin (display 1) (display 2) (display 3))"), "1 2 3 ");
    assert_eq!(output_of("(begin)"), "");
    assert_eq!(error_of("(display (begin 1 2))"), EvalError::NotALiteral);
}

#[test]
fn comparisons_give_one_or_zero() {
    assert_eq!(output_of("(display (< 1 2))"), "1 ");
    assert_eq!(output_of("(display (< 2 1))"), "0 ");
    assert_eq!(output_of("(display (<= 2 2))"), "1 ");
    assert_eq!(output_of("(display (<= 3 2))"), "0 ");
    assert_eq!(output_of("(display (> 3 2))"), "1 ");
    assert_eq!(output_of("(display (> 2 2))"), "0 ");
    assert_eq!(output_of("(display (>= 2 2))"), "1 ");
    assert_eq!(output_of("(display (>= 1 2))"), "0 ");
    assert_eq!(output_of("(display (< \"1\" 2))"), "1 ");
    let outcome = run_text("(define t (< 1 2))", &[]);
    assert_eq!(outcome.runtime.variable("t").unwrap().var_type, Types::Int);
}

#[test]
fn equality_compares_numbers_as_numbers() {
    assert_eq!(output_of("(display (= 3 3.0))"), "1 ");
    assert_eq!(output_of("(display (= 3 4))"), "0 ");
    assert_eq!(output_of("(display (= 03 3))"), "1 ");
    assert_eq!(output_of("(display (!= 3 3.0))"), "0 ");
    assert_eq!(output_of("(display (!= 3 4))"), "1 ");
    assert_eq!(output_of("(display (= (+ 1 2) 3))"), "1 ");
}

#[test]
fn equality_of_strings_is_by_text() {
    assert_eq!(output_of("(display (= \"a\" \"a\"))"), "1 ");
    assert_eq!(output_of("(display (= \"a\" \"b\"))"), "0 ");
    assert_eq!(output_of("(display (!= \"a\" \"b\"))"), "1 ");
    assert_eq!(output_of("(display (!= \"a\" \"a\"))"), "0 ");
    assert_eq!(output_of("(display (= \"3\" \"3.0\"))"), "0 ");
}

#[test]
fn values_of_other_kinds_are_unequal() {
    assert_eq!(output_of("(display (= \"3\" 3))"), "0 ");
    assert_eq!(output_of("(display (= 3 \"3\"))"), "0 ");
    assert_eq!(output_of("(display (!= \"3\" 3))"), "1 ");
    assert_eq!(output_of("(display (= foo foo))"), "0 ");
    assert_eq!(output_of("(display (!= foo foo))"), "1 ");
}

#[test]
fn binary_operators_need_two_operands() {
    assert_eq!(error_of("(< 1)"), EvalError::MissingArgument);
    assert_eq!(error_of("(=)"), EvalError::MissingArgument);
    assert_eq!(error_of("(% 1)"), EvalError::MissingArgument);
    assert_eq!(error_of("(= 1 (begin))"), EvalError::NotALiteral);
    assert_eq!(error_of("(< (begin) 1)"), EvalError::NotALiteral);
}

#[test]
fn true_and_false_are_one_and_zero() {
    assert_eq!(output_of("(display (true))"), "1 ");
    assert_eq!(output_of("(display (false))"), "0 ");
    let hash = run_tree(
        vec![call("display", vec![call("#t", vec![]), call("#f", vec![])])],
        &[],
    );
    assert_eq!(hash.output, "10 ");
}

#[test]
fn an_unknown_function_is_fatal() {
    let outcome = run_tree(
        vec![call("foo", vec![literal(Types::Int, "1"), literal(Types::Int, "2")])],
        &[],
    );
    assert_eq!(outcome.error, Some(EvalError::UnknownFunction));
    assert_eq!(error_of("(end)"), EvalError::UnknownFunction);
    assert_eq!(error_of("(== 1 1)"), EvalError::UnknownFunction);
    let late = run_text("(display 1) (begin (else))", &[]);
    assert_eq!(late.error, Some(EvalError::UnknownFunction));
    assert_eq!(late.output, "1 ");
}

#[test]
fn a_literal_at_the_top_level_does_nothing() {
    let outcome = run_text("5 \"text\" word", &[]);
    assert_eq!(outcome.error, None);
    assert!(outcome.prints.is_empty());
}

#[test]
fn read_takes_a_number() {
    let outcome = run_text("(define n (read)) (display (+ n 1))", &["41\n"]);
    assert_eq!(outcome.error, None);
    assert_eq!(outcome.output, "42 ");
    let n = outcome.runtime.variable("n").unwrap();
    assert_eq!((n.var_type, n.value.as_str()), (Types::Int, "41"));
    let windows = run_text("(display (read))", &["7\r\n"]);
    assert_eq!(windows.output, "7 ");
}

#[test]
fn read_takes_a_float_where_the_line_has_a_point() {
    let outcome = run_text("(define n (read)) (display (+ n 1))", &["3.5\n"]);
    assert_eq!(outcome.error, None);
    assert_eq!(outcome.output, "4.5 ");
    let n = outcome.runtime.variable("n").unwrap();
    assert_eq!((n.var_type, n.value.as_str()), (Types::Float, "3.5"));
    let windows = run_text("(define n (read))", &["0.25\r\n"]);
    let n = windows.runtime.variable("n").unwrap();
    assert_eq!((n.var_type, n.value.as_str()), (Types::Float, "0.25"));
    let whole = run_text("(define n (read))", &["42\n"]);
    let n = whole.runtime.variable("n").unwrap();
    assert_eq!((n.var_type, n.value.as_str()), (Types::Int, "42"));
}

#[test]
fn read_refuses_what_is_not_numeric() {
    assert_eq!(run_text("(read)", &["abc\n"]).error, Some(EvalError::NonNumericInput));
    assert_eq!(run_text("(read)", &["1.2.3\n"]).error, Some(EvalError::NonNumericInput));
    assert_eq!(run_text("(read)", &["-1\n"]).error, Some(EvalError::NonNumericInput));
    assert_eq!(run_text("(read)", &["1 2\n"]).error, Some(EvalError::NonNumericInput));
    assert_eq!(run_text("(read)", &["3.5x\n"]).error, Some(EvalError::NonNumericInput));
}

#[test]
fn read_line_takes_any_line_as_a_string() {
    let outcome = run_text("(define s (read-line)) (display s)", &["hello there\n"]);
    assert_eq!(outcome.error, None);
    assert_eq!(outcome.output, "hello there ");
    let s = outcome.runtime.variable("s").unwrap();
    assert_eq!((s.var_type, s.value.as_str()), (Types::String, "hello there"));
    let number = run_text("(display (= (read-line) 5))", &["5\n"]);
    assert_eq!(number.output, "0 ");
}

#[test]
fn lines_are_read_in_order() {
    let outcome = run_text("(display (- (read) (read)))", &["10\n", "4\n"]);
    assert_eq!(outcome.output, "6 ");
}

#[test]
fn an_answer_to_another_request_is_fatal() {
    let mut runtime = Runtime::new(vec![call("newline", vec![])]);
    assert!(matches!(runtime.run(10), Action::Ask(Request::Print(_))));
    assert!(matches!(
        runtime.resume(Event::Truth(true)),
        Action::Failed(EvalError::UnexpectedEvent)
    ));
    assert!(matches!(
        runtime.resume(Event::Printed),
        Action::Failed(EvalError::UnexpectedEvent)
    ));
    assert!(matches!(runtime.step(), Action::Failed(EvalError::UnexpectedEvent)));
}

#[test]
fn an_answer_that_nothing_waits_for_is_fatal() {
    let mut runtime = Runtime::new(vec![literal(Types::Int, "1")]);
    assert!(matches!(
        runtime.resume(Event::Printed),
        Action::Failed(EvalError::UnexpectedEvent)
    ));
    let mut done = Runtime::new(vec![]);
    assert!(matches!(done.run(10), Action::Finished));
    assert!(matches!(done.resume(Event::Printed), Action::Finished));
    assert!(matches!(done.step(), Action::Finished));
}

#[test]
fn a_waiting_runtime_repeats_its_request() {
    let mut runtime = Runtime::new(vec![call("read", vec![])]);
    assert!(matches!(runtime.run(10), Action::Ask(Request::ReadLine)));
    assert!(matches!(runtime.step(), Action::Ask(Request::ReadLine)));
    assert!(matches!(runtime.run(10), Action::Ask(Request::ReadLine)));
    assert!(matches!(runtime.action(), Action::Ask(Request::ReadLine)));
}

#[test]
fn steps_go_one_transition_at_a_time() {
    let mut runtime = Runtime::new(vec![literal(Types::Int, "1")]);
    assert!(matches!(runtime.action(), Action::Continue));
    assert!(matches!(runtime.step(), Action::Continue));
    assert!(matches!(runtime.step(), Action::Continue));
    assert!(matches!(runtime.step(), Action::Continue));
    assert!(matches!(runtime.step(), Action::Finished));
    let mut limited = Runtime::new(vec![literal(Types::Int, "1")]);
    assert!(matches!(limited.run(3), Action::Continue));
    assert!(matches!(limited.run(1), Action::Finished));
}

#[test]
fn evaluating_an_expression_twice_gives_the_same_text() {
    let outcome = run_text(
        "(define x 4) (display (* (+ x 1) 2)) (display (* (+ x 1) 2)) (display x)",
        &[],
    );
    assert_eq!(outcome.error, None);
    assert_eq!(outcome.prints, vec!["10 ", "10 ", "4 "]);
}

#[test]
fn nothing_is_evaluated_after_a_failure() {
    let tree = run_tree(
        vec![
            call("display", vec![literal(Types::Int, "1")]),
            call("foo", vec![]),
            call("display", vec![literal(Types::Int, "2")]),
        ],
        &[],
    );
    assert_eq!(tree.error, Some(EvalError::UnknownFunction));
    assert_eq!(tree.output, "1 ");
}

/// What the runtime asks while it runs a program whose host answers with
/// floating-point arithmetic, each request written out.
fn requests_of(expressions: Vec<Argument>) -> Vec<String> {
    let mut asked = Vec::new();
    let mut input = Vec::new();
    let mut prints = Vec::new();
    let mut runtime = Runtime::new(expressions);
    let mut action = runtime.run(1000);
    loop {
        action = match action {
            Action::Continue => runtime.run(1000),
            Action::Ask(request) => {
                asked.push(format!("{:?}", request));
                let event = host(request, &mut input, &mut prints);
                runtime.resume(event);
                runtime.run(1000)
            }
            Action::Finished | Action::Failed(_) => return asked,
        };
    }
}

#[test]
fn an_expression_asks_the_same_wherever_it_stands() {
    let expression = || {
        call(
            "/",
            vec![
                call("+", vec![literal(Types::Int, "4"), literal(Types::Float, "2.0")]),
                call("-", vec![literal(Types::Int, "5"), literal(Types::Int, "2")]),
            ],
        )
    };
    let alone = requests_of(vec![expression()]);
    assert_eq!(alone.len(), 7);
    let nested = requests_of(vec![call(
        "begin",
        vec![call("if", vec![call("true", vec![]), call("begin", vec![expression()])])],
    )]);
    assert_eq!(nested, alone);
    let displayed = requests_of(vec![call("display", vec![expression()])]);
    assert_eq!(displayed[..7], alone[..]);
    assert_eq!(displayed[7], "Print(\"2 \")");
}

#[test]
fn done_and_failed_runtimes_stay_as_they_are() {
    let mut failed = Runtime::new(vec![call("foo", vec![])]);
    assert!(matches!(failed.run(10), Action::Failed(EvalError::UnknownFunction)));
    assert!(matches!(failed.step(), Action::Failed(EvalError::UnknownFunction)));
    assert!(matches!(
        failed.resume(Event::Number("1".to_string())),
        Action::Failed(EvalError::UnknownFunction)
    ));
    assert!(matches!(failed.run(10), Action::Failed(EvalError::UnknownFunction)));
    assert!(matches!(failed.action(), Action::Failed(EvalError::UnknownFunction)));
}
