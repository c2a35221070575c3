use lox::host::{Arithmetic, Comparison, Number, Reply, Request};
use lox::tree_walking::errors::{ResolveError, RuntimeError, SyntaxError, ValueType};
use lox::tree_walking::interpreter::{Interpreter, Progress};
use lox::tree_walking::runner::{run, Error};

fn number(value: f64) -> Reply {
    Reply::Number(Number { bits: value.to_bits() })
}

fn float(number: Number) -> f64 {
    f64::from_bits(number.bits)
}

fn perform(request: Request, output: &mut Vec<String>) -> Reply {
    match request {
        Request::Parse { lexeme } => number(lexeme.parse::<f64>().unwrap()),
        Request::Negate { operand } => number(-float(operand)),
        Request::Calculate { operator, left, right } => {
            let (a, b) = (float(left), float(right));
            number(match operator {
                Arithmetic::Add => a + b,
                Arithmetic::Subtract => a - b,
                Arithmetic::Multiply => a * b,
                Arithmetic::Divide => a / b,
            })
        }
        Request::Compare { operator, left, right } => {
            let (a, b) = (float(left), float(right));
            Reply::Bool(match operator {
                Comparison::Equal => a == b,
                Comparison::NotEqual => a != b,
                Comparison::Less => a < b,
                Comparison::LessEqual => a <= b,
                Comparison::Greater => a > b,
                Comparison::GreaterEqual => a >= b,
            })
        }
        Request::Format { number } => Reply::Text(float(number).to_string()),
        Request::Clock => number(1234.5),
        Request::Print { line } => {
            output.push(line);
            Reply::Done
        }
    }
}

/// Runs `source` with a host that computes with `f64`, and gives the lines
/// written and how the run ended.
fn execute(source: &str) -> (Vec<String>, Result<(), RuntimeError>) {
    let program = run(source.to_string()).unwrap();
    let mut interpreter = Interpreter::new(program.locals);
    interpreter.interpret_program(&program.statements);
    let mut output = Vec::new();
    let mut reply = None;
    for _ in 0..1_000_000 {
        match interpreter.step(reply.take()) {
            Progress::Running => {}
            Progress::Waiting(request) => reply = Some(perform(request, &mut output)),
            Progress::Finished => return (output, Ok(())),
            Progress::Failed(error) => return (output, Err(error)),
        }
    }
    panic!("the program did not end");
}

fn lines(source: &str) -> Vec<String> {
    let (output, result) = execute(source);
    assert_eq!(result, Ok(()));
    output
}

#[test]
fn prints_arithmetic_with_precedence() {
    assert_eq!(lines("println(1 + 2 * 3);"), vec!["7"]);
}

#[test]
fn prints_sum_of_variables() {
    assert_eq!(lines("var a = 1; var b = 2; println(a + b);"), vec!["3"]);
}

#[test]
fn while_loop_counts() {
    assert_eq!(lines("var x = 0; while (x < 3) { x = x + 1; } println(x);"), vec!["3"]);
}

#[test]
fn if_takes_the_true_branch() {
    assert_eq!(lines("if (true) { println(\"t\"); } else { println(\"f\"); }"), vec!["t"]);
}

#[test]
fn if_takes_the_else_branch() {
    assert_eq!(lines("if (false) { println(\"t\"); } else { println(\"f\"); }"), vec!["f"]);
}

#[test]
fn closure_keeps_its_frame() {
    let source = "var c = 0; fun inc() { c = c + 1; println(c); } inc(); inc();";
    assert_eq!(lines(source), vec!["1", "2"]);
}

#[test]
fn closure_sees_the_variable_of_its_declaration() {
    let source = "var x = 1; fun g() { println(x); } { var x = 2; g(); }";
    assert_eq!(lines(source), vec!["1"]);
}

#[test]
fn inner_function_captures_the_call_frame() {
    let source = "fun f(a) { fun g() { println(a); } g(); } f(1); f(2);";
    assert_eq!(lines(source), vec!["1", "2"]);
}

#[test]
fn or_does_not_evaluate_the_right_side_after_a_truthy_left() {
    assert_eq!(lines("fun side() { println(\"side\"); } println(1 or side());"), vec!["1"]);
}

#[test]
fn and_does_not_evaluate_the_right_side_after_a_falsy_left() {
    assert_eq!(
        lines("fun side() { println(\"side\"); } println(false and side());"),
        vec!["false"]
    );
}

#[test]
fn and_evaluates_the_right_side_after_a_truthy_left() {
    assert_eq!(
        lines("fun side() { println(\"side\"); } println(true and side());"),
        vec!["side", "nil"]
    );
}

#[test]
fn or_gives_false_when_both_sides_are_falsy() {
    assert_eq!(lines("println(false or false);"), vec!["false"]);
}

#[test]
fn ternary_associates_to_the_right() {
    assert_eq!(lines("println(true ? 1 : 2 ? 3 : 4);"), vec!["1"]);
    assert_eq!(lines("println(false ? 1 : (true ? 3 : 4));"), vec!["3"]);
    assert_eq!(lines("println(false ? 1 : false ? 3 : 4);"), vec!["4"]);
}

#[test]
fn nil_counts_as_true() {
    assert_eq!(lines("println(nil ? 1 : 2);"), vec!["1"]);
}

#[test]
fn division_divides() {
    assert_eq!(lines("println(7 / 2);"), vec!["3.5"]);
}

#[test]
fn comma_gives_the_right_value() {
    assert_eq!(lines("var a = (1, 2); println(a);"), vec!["2"]);
}

#[test]
fn println_separates_by_blanks() {
    assert_eq!(lines("println(1, \"a\", true, nil, println);"), vec!["1 a true nil function"]);
}

#[test]
fn println_without_arguments_writes_an_empty_line() {
    assert_eq!(lines("println();"), vec![""]);
}

#[test]
fn clock_gives_the_time_of_the_host() {
    assert_eq!(lines("println(clock());"), vec!["1234.5"]);
}

#[test]
fn assignment_gives_the_assigned_value() {
    assert_eq!(lines("var a = 1; var b = 0; b = a = 5; println(a, b);"), vec!["5 5"]);
}

#[test]
fn strings_compare_by_content() {
    assert_eq!(lines("println(\"a\" == \"a\", \"a\" != \"a\", \"a\" == \"b\");"), vec!["true false false"]);
}

#[test]
fn numbers_compare() {
    assert_eq!(
        lines("println(1 < 2, 2 <= 2, 1 > 2, 2 >= 3, 1 == 1, 1 != 1);"),
        vec!["true true false false true false"]
    );
}

#[test]
fn unary_operators() {
    assert_eq!(lines("println(-3, !true, - -3);"), vec!["-3 false 3"]);
}

#[test]
fn not_takes_a_bool() {
    let (_, result) = execute("!1;");
    assert_eq!(
        result,
        Err(RuntimeError::TypeError { expected: ValueType::Bool, given: ValueType::Number })
    );
}

#[test]
fn minus_takes_a_number() {
    let (_, result) = execute("-true;");
    assert_eq!(
        result,
        Err(RuntimeError::TypeError { expected: ValueType::Number, given: ValueType::Bool })
    );
}

#[test]
fn plus_takes_numbers() {
    let (_, result) = execute("1 + \"a\";");
    assert_eq!(
        result,
        Err(RuntimeError::TypeError { expected: ValueType::Number, given: ValueType::String })
    );
    let (_, result) = execute("nil + 1;");
    assert_eq!(
        result,
        Err(RuntimeError::TypeError { expected: ValueType::Number, given: ValueType::Nil })
    );
}

#[test]
fn equality_across_types_fails() {
    let (_, result) = execute("1 == \"a\";");
    assert_eq!(
        result,
        Err(RuntimeError::NotComparable { left: ValueType::Number, right: ValueType::String })
    );
    let (_, result) = execute("nil == nil;");
    assert_eq!(
        result,
        Err(RuntimeError::NotComparable { left: ValueType::Nil, right: ValueType::Nil })
    );
}

#[test]
fn calling_a_number_fails() {
    let (_, result) = execute("var a = 1; a();");
    assert_eq!(result, Err(RuntimeError::NotCallable { given: ValueType::Number }));
}

#[test]
fn arity_must_match() {
    let (_, result) = execute("fun f(a, b) { } f(1);");
    assert_eq!(result, Err(RuntimeError::ArityMismatch { expected: 2, given: 1 }));
}

#[test]
fn a_runtime_error_stops_the_program() {
    let (output, result) = execute("println(1); -nil; println(2);");
    assert_eq!(output, vec!["1"]);
    assert!(result.is_err());
}

#[test]
fn recursion_gets_a_fresh_frame_for_every_call() {
    let source = "fun count(n) { if (n > 0) { count(n - 1); } println(n); } count(2);";
    assert_eq!(lines(source), vec!["0", "1", "2"]);
}

#[test]
fn syntax_errors_are_collected() {
    let result = run("var = 1; 1 +; var a = 2;".to_string());
    match result {
        Err(Error::Syntax(errors)) => assert_eq!(
            errors,
            vec![
                SyntaxError::VariableDeclarationMissingIdentifier,
                SyntaxError::UnexpectedTokenInExpression
            ]
        ),
        _ => panic!("two syntax errors were expected"),
    }
}

#[test]
fn undefined_variable_is_a_static_error() {
    match run("println(a);".to_string()) {
        Err(Error::Resolve(error)) => {
            assert_eq!(error, ResolveError::UndefinedVariable { name: "a".to_string() })
        }
        _ => panic!("a static error was expected"),
    }
}

#[test]
fn reading_a_variable_in_its_own_initializer_is_a_static_error() {
    match run("var a = 1; { var a = a; }".to_string()) {
        Err(Error::Resolve(error)) => {
            assert_eq!(error, ResolveError::OwnInitializer { name: "a".to_string() })
        }
        _ => panic!("a static error was expected"),
    }
}

#[test]
fn a_reply_that_was_not_asked_for_fails() {
    let program = run("1;".to_string()).unwrap();
    let mut interpreter = Interpreter::new(program.locals);
    interpreter.interpret_program(&program.statements);
    assert_eq!(
        interpreter.step(Some(Reply::Done)),
        Progress::Failed(RuntimeError::UnexpectedReply)
    );
    assert_eq!(interpreter.step(None), Progress::Finished);
}

#[test]
fn a_reply_of_the_wrong_kind_fails() {
    let program = run("1;".to_string()).unwrap();
    let mut interpreter = Interpreter::new(program.locals);
    interpreter.interpret_program(&program.statements);
    let mut progress = interpreter.step(None);
    while progress == Progress::Running {
        progress = interpreter.step(None);
    }
    assert_eq!(progress, Progress::Waiting(Request::Parse { lexeme: "1".to_string() }));
    assert_eq!(
        interpreter.step(Some(Reply::Bool(true))),
        Progress::Failed(RuntimeError::UnexpectedReply)
    );
}
