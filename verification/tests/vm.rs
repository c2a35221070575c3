use lox::host::{Arithmetic, Comparison, Number, Reply, Request};
use lox::scanner::Scanner;
use lox::vm::chunk::{Chunk, Opcode, Value};
use lox::vm::compile::SyntaxError;
use lox::vm::parser::Parser;
use lox::vm::runner::run as compile_source;
use lox::vm::vm::{Progress, RuntimeError, VM};

fn number_value(value: f64) -> Value {
    Value::Number(Number { bits: value.to_bits() })
}

fn as_float(number: Number) -> f64 {
    f64::from_bits(number.bits)
}

fn answer(request: Request, output: &mut Vec<String>) -> Reply {
    match request {
        Request::Parse { lexeme } => {
            Reply::Number(Number { bits: lexeme.parse::<f64>().unwrap().to_bits() })
        }
        Request::Negate { operand } => Reply::Number(Number { bits: (-as_float(operand)).to_bits() }),
        Request::Calculate { operator, left, right } => {
            let (a, b) = (as_float(left), as_float(right));
            let result = match operator {
                Arithmetic::Add => a + b,
                Arithmetic::Subtract => a - b,
                Arithmetic::Multiply => a * b,
                Arithmetic::Divide => a / b,
            };
            Reply::Number(Number { bits: result.to_bits() })
        }
        Request::Compare { operator, left, right } => {
            let (a, b) = (as_float(left), as_float(right));
            Reply::Bool(match operator {
                Comparison::Equal => a == b,
                Comparison::NotEqual => a != b,
                Comparison::Less => a < b,
                Comparison::LessEqual => a <= b,
                Comparison::Greater => a > b,
                Comparison::GreaterEqual => a >= b,
            })
        }
        Request::Format { number } => Reply::Text(as_float(number).to_string()),
        Request::Clock => Reply::Number(Number { bits: 0 }),
        Request::Print { line } => {
            output.push(line);
            Reply::Done
        }
    }
}

/// Runs `vm` to its end with a host that computes with `f64`.
fn drive(vm: &mut VM) -> (Vec<String>, Result<(), RuntimeError>) {
    let mut output = Vec::new();
    let mut reply = None;
    for _ in 0..100_000 {
        match vm.interpret(reply.take()) {
            Progress::Running => {}
            Progress::Waiting(request) => reply = Some(answer(request, &mut output)),
            Progress::Finished => return (output, Ok(())),
            Progress::Failed(error) => return (output, Err(error)),
        }
    }
    panic!("the chunk did not end");
}

/// Compiles `source`, runs it, and gives what is on the stack at the end.
fn evaluate(source: &str) -> Vec<Value> {
    let chunk = compile_source(source.to_string()).unwrap();
    let mut vm = VM::new(chunk);
    let (_, result) = drive(&mut vm);
    assert_eq!(result, Ok(()));
    vm.stack().clone()
}

#[test]
fn test_display() {
    let mut chunk = Chunk::new();

    chunk.push_code(Opcode::Return, 1);
    chunk.push_code(Opcode::Return, 1234);
    chunk.push_constant(number_value(3.14), 2);

    assert_eq!(
        chunk.code(),
        &vec![Opcode::Return, Opcode::Return, Opcode::Constant { index: 0 }]
    );
    assert_eq!(chunk.lines(), &vec![1, 1234, 2]);
    assert_eq!(chunk.constants(), &vec![number_value(3.14)]);
}

#[test]
fn parser_test_name() {
    let scanner = Scanner::new("-(1 + 2) * 2".to_string());

    let mut parser = Parser::new(scanner);

    parser.parse().unwrap();

    let chunk = parser.take_chunk();
    assert_eq!(
        chunk.code(),
        &vec![
            Opcode::Constant { index: 0 },
            Opcode::Constant { index: 1 },
            Opcode::Add,
            Opcode::Negate,
            Opcode::Constant { index: 2 },
            Opcode::Multiply,
        ]
    );
    assert_eq!(
        chunk.constants(),
        &vec![
            Value::Numeral("1".to_string()),
            Value::Numeral("2".to_string()),
            Value::Numeral("2".to_string())
        ]
    );
}

#[test]
fn test_interpret() {
    let mut chunk = Chunk::new();

    chunk.push_constant(number_value(1.), 1);
    chunk.push_constant(number_value(2.), 1);
    chunk.push_code(Opcode::Add, 1);
    chunk.push_code(Opcode::Negate, 1);
    chunk.push_code(Opcode::Return, 1);

    let mut vm = VM::new(chunk);

    let (output, result) = drive(&mut vm);
    assert_eq!(result, Ok(()));
    assert_eq!(output, vec!["-3"]);
    assert!(vm.stack().is_empty());
}

#[test]
fn vm_concatenates_strings() {
    assert_eq!(evaluate("\"a\" + \"b\""), vec![Value::String("ab".to_string())]);
}

#[test]
fn vm_concatenates_a_string_and_a_number() {
    assert_eq!(evaluate("\"a\" + 1"), vec![Value::String("a1".to_string())]);
    assert_eq!(evaluate("1.5 + \"a\""), vec![Value::String("1.5a".to_string())]);
    assert_eq!(evaluate("\"a\" + true"), vec![Value::String("atrue".to_string())]);
    assert_eq!(evaluate("nil + \"a\""), vec![Value::String("nila".to_string())]);
}

#[test]
fn vm_arithmetic_follows_precedence() {
    assert_eq!(evaluate("1 + 2 * 3"), vec![number_value(7.0)]);
    assert_eq!(evaluate("(1 + 2) * 3"), vec![number_value(9.0)]);
    assert_eq!(evaluate("10 - 2 - 3"), vec![number_value(5.0)]);
    assert_eq!(evaluate("8 / 2 / 2"), vec![number_value(2.0)]);
    assert_eq!(evaluate("-2 * 3"), vec![number_value(-6.0)]);
}

#[test]
fn vm_comparisons() {
    assert_eq!(evaluate("1 < 2"), vec![Value::Bool(true)]);
    assert_eq!(evaluate("1 > 2"), vec![Value::Bool(false)]);
    assert_eq!(evaluate("2 <= 2"), vec![Value::Bool(true)]);
    assert_eq!(evaluate("2 >= 3"), vec![Value::Bool(false)]);
}

#[test]
fn vm_not_and_truthiness() {
    assert_eq!(evaluate("!true"), vec![Value::Bool(false)]);
    assert_eq!(evaluate("!nil"), vec![Value::Bool(true)]);
    assert_eq!(evaluate("!0"), vec![Value::Bool(false)]);
    assert_eq!(evaluate("!\"\""), vec![Value::Bool(false)]);
}

#[test]
fn vm_equal_compares_truthiness() {
    assert_eq!(evaluate("1 == 2"), vec![Value::Bool(true)]);
    assert_eq!(evaluate("nil == false"), vec![Value::Bool(true)]);
    assert_eq!(evaluate("nil == 1"), vec![Value::Bool(false)]);
    assert_eq!(evaluate("nil != 1"), vec![Value::Bool(true)]);
}

#[test]
fn compiler_emits_two_instructions_for_negated_comparisons() {
    let chunk = compile_source("1 != 2".to_string()).unwrap();
    assert_eq!(
        chunk.code(),
        &vec![
            Opcode::Constant { index: 0 },
            Opcode::Constant { index: 1 },
            Opcode::Equal,
            Opcode::Not
        ]
    );
    let chunk = compile_source("1 <= 2".to_string()).unwrap();
    assert_eq!(chunk.code()[2..], [Opcode::Greater, Opcode::Not]);
    let chunk = compile_source("1 >= 2".to_string()).unwrap();
    assert_eq!(chunk.code()[2..], [Opcode::Less, Opcode::Not]);
}

#[test]
fn compiler_records_the_lines() {
    let chunk = compile_source("1 +\n2".to_string()).unwrap();
    assert_eq!(chunk.lines(), &vec![1, 2, 1]);
}

#[test]
fn compiler_emits_not_for_bang() {
    let chunk = compile_source("!true".to_string()).unwrap();
    assert_eq!(chunk.code(), &vec![Opcode::True, Opcode::Not]);
}

#[test]
fn compiler_rejects_an_unclosed_paren() {
    assert_eq!(compile_source("(1 + 2".to_string()).err(), Some(SyntaxError::MissingRightParen));
}

#[test]
fn compiler_rejects_a_token_that_starts_no_expression() {
    assert_eq!(compile_source("1 + ;".to_string()).err(), Some(SyntaxError::UnexpectedToken));
    assert_eq!(compile_source("".to_string()).err(), Some(SyntaxError::UnexpectedToken));
    assert_eq!(compile_source("-".to_string()).err(), Some(SyntaxError::UnexpectedToken));
}

#[test]
fn vm_fails_on_an_empty_stack() {
    let mut chunk = Chunk::new();
    chunk.push_code(Opcode::Not, 1);
    let mut vm = VM::new(chunk);
    assert_eq!(drive(&mut vm).1, Err(RuntimeError::EmptyStack));
    let mut chunk = Chunk::new();
    chunk.push_code(Opcode::True, 1);
    chunk.push_code(Opcode::Add, 1);
    let mut vm = VM::new(chunk);
    assert_eq!(drive(&mut vm).1, Err(RuntimeError::EmptyStack));
}

#[test]
fn vm_expects_numbers() {
    let mut chunk = Chunk::new();
    chunk.push_code(Opcode::True, 1);
    chunk.push_code(Opcode::Negate, 1);
    let mut vm = VM::new(chunk);
    assert_eq!(drive(&mut vm).1, Err(RuntimeError::ExpectedNumber));
    let mut chunk = Chunk::new();
    chunk.push_code(Opcode::True, 1);
    chunk.push_code(Opcode::Nil, 1);
    chunk.push_code(Opcode::Add, 1);
    let mut vm = VM::new(chunk);
    assert_eq!(drive(&mut vm).1, Err(RuntimeError::ExpectedNumber));
    let mut chunk = Chunk::new();
    chunk.push_constant(number_value(1.0), 1);
    chunk.push_code(Opcode::Nil, 1);
    chunk.push_code(Opcode::Less, 1);
    let mut vm = VM::new(chunk);
    assert_eq!(drive(&mut vm).1, Err(RuntimeError::ExpectedNumber));
}

#[test]
fn vm_fails_on_a_missing_constant() {
    let mut chunk = Chunk::new();
    chunk.push_code(Opcode::Constant { index: 3 }, 1);
    let mut vm = VM::new(chunk);
    assert_eq!(drive(&mut vm).1, Err(RuntimeError::MissingConstant));
}

#[test]
fn vm_rejects_a_reply_that_was_not_asked_for() {
    let mut chunk = Chunk::new();
    chunk.push_code(Opcode::True, 1);
    let mut vm = VM::new(chunk);
    assert_eq!(vm.interpret(Some(Reply::Done)), Progress::Failed(RuntimeError::UnexpectedReply));
    assert_eq!(vm.interpret(None), Progress::Finished);
}

#[test]
fn vm_reports_the_returned_value() {
    let mut chunk = Chunk::new();
    chunk.push_constant(Value::String("done".to_string()), 1);
    chunk.push_code(Opcode::Return, 1);
    let mut vm = VM::new(chunk);
    let (output, result) = drive(&mut vm);
    assert_eq!(result, Ok(()));
    assert_eq!(output, vec!["done"]);
}
