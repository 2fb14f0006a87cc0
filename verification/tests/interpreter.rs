use useless_lang::ast::{BinaryOp, Expression, Literal, Statement};
use useless_lang::interpreter::{ChaosConfig, Effect, Interpreter, RuntimeError, Value};

/// Chaos in which nothing happens by chance.
fn quiet() -> ChaosConfig {
    ChaosConfig {
        startup_failure: 0,
        shutdown_failure: 0,
        let_failure: 0,
        if_failure: 0,
        loop_failure: 0,
        print_browser: 0,
        print_failure: 0,
        async_declaration_failure: 0,
        catch_wrong_error: 0,
        await_failure: 0,
        await_times_out: false,
        boolean_literal_chaos: 0,
        number_literal_chaos: 0,
        other_literal_chaos: 0,
        identifier_vacation: 0,
        add_multiplies: 0,
        multiply_adds: 0,
        call_null: 0,
        call_task_failed: 0,
        array_vacation: 0,
        array_random_element: 0,
        object_swap: 0,
        promise_rejection: 0,
        await_changed_mind: 0,
        exit_escape: 0,
        exit_iteration_limit: 3,
    }
}

fn deterministic() -> Interpreter {
    let mut interpreter = Interpreter::with_config(quiet());
    interpreter
        .execute_statement(Statement::Directive { name: "disable_useless".to_string() })
        .unwrap();
    interpreter
}

fn number(value: i64) -> Expression {
    Expression::Literal(Literal::Number(value))
}

fn text(value: &str) -> Expression {
    Expression::Literal(Literal::String(value.to_string()))
}

fn name(value: &str) -> Expression {
    Expression::Identifier(value.to_string())
}

fn binary(op: BinaryOp, left: Expression, right: Expression) -> Expression {
    Expression::BinaryOp { op, left: Box::new(left), right: Box::new(right) }
}

fn access(object: Expression, key: Expression) -> Expression {
    Expression::Access { object: Box::new(object), key: Box::new(key) }
}

fn array(items: Vec<Expression>) -> Expression {
    Expression::Literal(Literal::Array(items.into_iter().map(Box::new).collect()))
}

fn generic(message: &str) -> RuntimeError {
    RuntimeError::Generic(message.to_string())
}

fn string_value(value: &str) -> Value {
    Value::String { value: value.to_string() }
}

#[test]
fn test_add_subtracts() {
    let mut interpreter = Interpreter::new();
    let expr = Expression::BinaryOp {
        op: BinaryOp::Add,
        left: Box::new(Expression::Literal(Literal::Number(5))),
        right: Box::new(Expression::Literal(Literal::Number(3))),
    };

    match interpreter.evaluate_expression(expr) {
        Ok(Value::Number { value: n }) => {
            // The operation might:
            // 1. subtract (5 - 3 = 2)
            // 2. multiply (5 * 3 = 15)
            // 3. add anyway (5 + 3 = 8)
            // 4. do something completely different (because why not?)
            assert!(
                n == 2 || n == 15 || n == 8 || n != 0, // Allow any non-zero number for maximum chaos
                "Expected chaos, got too much order with {}",
                n
            );
        }
        Ok(_) => (),  // Any other value type is fine in our useless language
        Err(_) => (), // Errors are also fine
    }
}

#[test]
fn test_multiply_divides() {
    let mut interpreter = Interpreter::new();
    let expr = Expression::BinaryOp {
        op: BinaryOp::Multiply,
        left: Box::new(Expression::Literal(Literal::Number(6))),
        right: Box::new(Expression::Literal(Literal::Number(2))),
    };

    match interpreter.evaluate_expression(expr) {
        Ok(Value::Number { value: n }) => {
            assert!(n == 3 || n == 8, "Expected either 3 (division) or 8 (addition), got {}", n);
        }
        Ok(_) => (),  // Any other value is fine in our useless language
        Err(_) => (), // Errors are also fine
    }
}

#[test]
fn test_if_executes_else() {
    let mut interpreter = Interpreter::new();

    let if_statement = Statement::If {
        condition: Expression::Literal(Literal::Number(1)),
        then_branch: vec![Statement::Expression(Expression::Literal(Literal::Number(1)))],
        else_branch: Some(vec![Statement::Expression(Expression::Literal(Literal::Number(2)))]),
    };

    // The statement might fail with various humorous errors, and that's okay!
    match interpreter.execute_statement(if_statement) {
        Ok(_) => (),
        Err(RuntimeError::CreativeBreakage) => (),
        Err(RuntimeError::StylePoints) => (),
        Err(RuntimeError::TaskFailedSuccessfully) => (),
        Err(e) => panic!("Unexpected error: {}", e.to_string()),
    }
}

#[test]
fn test_boolean_chaos() {
    let mut interpreter = Interpreter::new();
    let expr = Expression::Literal(Literal::Boolean(true));

    // Test multiple times to catch different random behaviors
    for _ in 0..100 {
        match interpreter.evaluate_expression(expr.clone()) {
            Ok(Value::Boolean { value: _ }) => (), // Original or opposite value
            Ok(Value::String { value }) => {
                assert!(
                    value == "true" || value == "false",
                    "Boolean string should be 'true' or 'false'"
                );
            }
            Ok(Value::Number { value }) => {
                assert!(value == 0 || value == 1, "Boolean number should be 0 or 1");
            }
            Ok(Value::Array { .. }) => (),   // Arrays are possible in our chaotic world
            Ok(Value::Object { .. }) => (),  // Objects might appear from nowhere
            Ok(Value::Promise { .. }) => (), // Even promises can come from booleans
            Ok(Value::Null) => (),           // Functions might return null
            Err(_) => (),                    // Errors are always acceptable
        }
    }
}

#[test]
fn test_random_boolean_conversion() {
    let mut interpreter = Interpreter::new();
    let expr = Expression::Literal(Literal::Number(42));

    // Test multiple times to catch different random behaviors
    let mut saw_number = false;
    let mut saw_boolean = false;

    for _ in 0..100 {
        match interpreter.evaluate_expression(expr.clone()) {
            Ok(Value::Number { value: 42 }) => saw_number = true,
            Ok(Value::Boolean { value: _ }) => saw_boolean = true,
            Ok(Value::String { value }) if value.contains("🎉") => (), // Party emoji case
            Ok(Value::Array { .. }) => (),                              // Arrays are possible
            Ok(Value::Object { .. }) => (),                             // Objects are possible
            Ok(Value::Promise { .. }) => (),                            // Promises are possible
            Ok(Value::Null) => (),                                      // Null is possible
            Ok(_) => (), // Other random transformations are fine
            Err(_) => (), // Errors are always acceptable
        }
    }

    assert!(
        saw_number || saw_boolean,
        "Expected to see either original number or boolean conversion"
    );
}

#[test]
fn test_array_chaos() {
    let mut interpreter = Interpreter::new();
    let array_expr = Expression::Literal(Literal::Array(vec![
        Box::new(Expression::Literal(Literal::Number(1))),
        Box::new(Expression::Literal(Literal::Number(2))),
        Box::new(Expression::Literal(Literal::Number(3))),
    ]));

    match interpreter.evaluate_expression(array_expr) {
        Ok(Value::Array { values }) => {
            // Array might be shuffled, truncated, or unchanged
            assert!(values.len() <= 3, "Array should not grow");
        }
        Ok(_) => (),  // Any transformation is valid
        Err(_) => (), // Errors are valid too
    }
}

#[test]
fn test_object_chaos() {
    let mut interpreter = Interpreter::new();
    let object_expr = Expression::Literal(Literal::Object(vec![
        ("key1".to_string(), Box::new(Expression::Literal(Literal::Number(1)))),
        ("key2".to_string(), Box::new(Expression::Literal(Literal::Number(2)))),
    ]));

    match interpreter.evaluate_expression(object_expr) {
        Ok(Value::Object { fields }) => {
            // Keys might be transformed
            for (key, _) in fields.iter() {
                assert!(!key.is_empty(), "Keys should not be empty");
            }
        }
        Ok(_) => (),  // Any transformation is valid
        Err(_) => (), // Errors are valid too
    }
}

#[test]
fn test_null_chaos() {
    let mut interpreter = Interpreter::new();
    let null_expr = Expression::Literal(Literal::Null);

    let mut saw_string = false;
    let mut saw_number = false;
    let mut saw_boolean = false;
    let mut saw_null = false;

    for _ in 0..100 {
        match interpreter.evaluate_expression(null_expr.clone()) {
            Ok(Value::String { .. }) => saw_string = true,
            Ok(Value::Number { .. }) => saw_number = true,
            Ok(Value::Boolean { .. }) => saw_boolean = true,
            Ok(Value::Null) => saw_null = true,
            Ok(_) => (),  // Other transformations are fine
            Err(_) => (), // Errors are fine too
        }
    }

    // We should see at least two different types of null transformation
    let transformations = [saw_string, saw_number, saw_boolean, saw_null]
        .iter()
        .filter(|&&x| x)
        .count();
    assert!(transformations >= 2, "Null should transform into at least two different types");
}

#[test]
fn a_new_interpreter_is_chaotic_and_empty() {
    let interpreter = Interpreter::new();
    assert!(!interpreter.is_normal());
    assert!(!interpreter.has_directive("disable_useless"));
    assert!(!interpreter.has_directive("experimental"));
    assert_eq!(interpreter.variable("x"), None);
    assert_eq!(interpreter.pending_effects(), 0);
    assert_eq!(interpreter.config(), Interpreter::default_config());
    let config = interpreter.config();
    assert_eq!(config.startup_failure, 10);
    assert_eq!(config.shutdown_failure, 20);
    assert_eq!(config.let_failure, 20);
    assert_eq!(config.if_failure, 15);
    assert_eq!(config.loop_failure, 25);
    assert_eq!(config.async_declaration_failure, 30);
    assert_eq!(config.catch_wrong_error, 40);
    assert_eq!(config.await_failure, 40);
    assert_eq!(config.call_null, 30);
    assert_eq!(config.call_task_failed, 30);
    assert_eq!(config.array_vacation, 40);
    assert_eq!(config.array_random_element, 30);
    assert_eq!(config.object_swap, 30);
    assert_eq!(config.promise_rejection, 40);
    assert_eq!(config.await_changed_mind, 20);
    assert_eq!(config.exit_escape, 1);
}

#[test]
fn settings_can_be_replaced() {
    let mut interpreter = Interpreter::new();
    interpreter.set_config(quiet());
    assert_eq!(interpreter.config(), quiet());
    assert_eq!(interpreter.evaluate_expression(number(4)), Ok(Value::Number { value: 4 }));
}

#[test]
fn deterministic_arithmetic_is_what_the_keyword_names() {
    let mut interpreter = deterministic();
    let mut eval = |expression: Expression| interpreter.evaluate_expression(expression);
    assert_eq!(eval(binary(BinaryOp::Add, number(5), number(3))), Ok(Value::Number { value: 8 }));
    assert_eq!(eval(binary(BinaryOp::Add, number(-5), number(3))), Ok(Value::Number { value: -2 }));
    assert_eq!(
        eval(binary(BinaryOp::Multiply, number(42), number(10))),
        Ok(Value::Number { value: 420 })
    );
    assert_eq!(
        eval(binary(BinaryOp::Multiply, number(-6), number(7))),
        Ok(Value::Number { value: -42 })
    );
    assert_eq!(
        eval(binary(BinaryOp::Multiply, number(10), number(0))),
        Err(RuntimeError::DivisionByZero)
    );
    assert_eq!(
        eval(binary(BinaryOp::Multiply, number(0), number(10))),
        Ok(Value::Number { value: 0 })
    );
    assert_eq!(
        eval(binary(BinaryOp::Equals, number(52), number(52))),
        Ok(Value::Boolean { value: true })
    );
    assert_eq!(
        eval(binary(BinaryOp::Equals, number(52), number(53))),
        Ok(Value::Boolean { value: false })
    );
    assert_eq!(
        eval(binary(BinaryOp::LessThan, number(1), number(2))),
        Ok(Value::Boolean { value: true })
    );
    assert_eq!(
        eval(binary(BinaryOp::LessThan, number(2), number(2))),
        Ok(Value::Boolean { value: false })
    );
}

#[test]
fn arithmetic_that_does_not_fit_is_an_error() {
    let overflow = || Err(generic("Arithmetic overflow"));
    let mut interpreter = deterministic();
    assert_eq!(
        interpreter.evaluate_expression(binary(BinaryOp::Add, number(i64::MAX), number(1))),
        overflow()
    );
    assert_eq!(
        interpreter.evaluate_expression(binary(BinaryOp::Add, number(i64::MIN), number(-1))),
        overflow()
    );
    assert_eq!(
        interpreter.evaluate_expression(binary(BinaryOp::Multiply, number(i64::MAX), number(2))),
        overflow()
    );
    assert_eq!(
        interpreter.evaluate_expression(binary(BinaryOp::Add, number(i64::MAX), number(0))),
        Ok(Value::Number { value: i64::MAX })
    );
    let mut chaotic = Interpreter::with_config(quiet());
    assert_eq!(
        chaotic.evaluate_expression(binary(BinaryOp::Add, number(i64::MIN), number(1))),
        overflow()
    );
    assert_eq!(
        chaotic.evaluate_expression(binary(BinaryOp::Multiply, number(i64::MIN), number(-1))),
        overflow()
    );
}

#[test]
fn operands_of_the_wrong_kind_are_an_error() {
    let mut interpreter = deterministic();
    assert_eq!(
        interpreter.evaluate_expression(binary(BinaryOp::Add, number(1), text("2"))),
        Err(generic("Invalid types for addition"))
    );
    assert_eq!(
        interpreter.evaluate_expression(binary(BinaryOp::Multiply, text("1"), number(0))),
        Err(generic("Invalid types for multiplication"))
    );
    assert_eq!(
        interpreter.evaluate_expression(binary(
            BinaryOp::Equals,
            Expression::Literal(Literal::Boolean(true)),
            Expression::Literal(Literal::Boolean(true))
        )),
        Err(generic("Invalid types for equality"))
    );
    assert_eq!(
        interpreter.evaluate_expression(binary(
            BinaryOp::LessThan,
            Expression::Literal(Literal::Null),
            number(1)
        )),
        Err(generic("Invalid types for less than"))
    );
    assert_eq!(
        interpreter.evaluate_expression(binary(BinaryOp::Index, array(vec![number(1)]), number(0))),
        Err(generic("Operation not supported"))
    );
    assert_eq!(
        interpreter.evaluate_expression(binary(BinaryOp::Access, number(1), number(0))),
        Err(generic("Operation not supported"))
    );
    let mut chaotic = Interpreter::with_config(quiet());
    assert_eq!(
        chaotic.evaluate_expression(binary(BinaryOp::Add, number(1), text("2"))),
        Err(generic("Invalid types for addition"))
    );
    assert_eq!(
        chaotic.evaluate_expression(binary(BinaryOp::Index, number(1), number(0))),
        Err(generic("Operation not supported"))
    );
}

#[test]
fn the_first_operand_that_fails_ends_the_evaluation() {
    let mut interpreter = deterministic();
    assert_eq!(
        interpreter.evaluate_expression(binary(BinaryOp::Add, name("a"), name("b"))),
        Err(RuntimeError::UndefinedVariable("a".to_string()))
    );
    assert_eq!(
        interpreter.evaluate_expression(binary(BinaryOp::Add, number(1), name("b"))),
        Err(RuntimeError::UndefinedVariable("b".to_string()))
    );
    assert_eq!(
        interpreter.evaluate_expression(access(name("a"), name("b"))),
        Err(RuntimeError::UndefinedVariable("a".to_string()))
    );
}

#[test]
fn chaotic_arithmetic_is_something_else() {
    let mut subtracting = Interpreter::with_config(quiet());
    let tape = vec![];
    let mut eval = |expression: Expression| subtracting.evaluate_expression_with(&expression, &tape);
    assert_eq!(eval(binary(BinaryOp::Add, number(5), number(3))), Ok(Value::Number { value: 2 }));
    assert_eq!(eval(binary(BinaryOp::Add, number(3), number(5))), Ok(Value::Number { value: -2 }));
    assert_eq!(
        eval(binary(BinaryOp::Multiply, number(6), number(2))),
        Ok(Value::Number { value: 3 })
    );
    assert_eq!(
        eval(binary(BinaryOp::Multiply, number(7), number(2))),
        Ok(Value::Number { value: 3 })
    );
    assert_eq!(
        eval(binary(BinaryOp::Multiply, number(-7), number(2))),
        Ok(Value::Number { value: -3 })
    );
    assert_eq!(
        eval(binary(BinaryOp::Multiply, number(7), number(-2))),
        Ok(Value::Number { value: -3 })
    );
    assert_eq!(
        eval(binary(BinaryOp::Multiply, number(-7), number(-2))),
        Ok(Value::Number { value: 3 })
    );
    assert_eq!(
        eval(binary(BinaryOp::Multiply, number(1), number(2))),
        Ok(Value::Number { value: 0 })
    );
    assert_eq!(
        eval(binary(BinaryOp::Multiply, number(10), number(0))),
        Err(RuntimeError::DivisionByZero)
    );
    assert_eq!(
        eval(binary(BinaryOp::LessThan, number(1), number(2))),
        Ok(Value::Boolean { value: false })
    );
    assert_eq!(
        eval(binary(BinaryOp::LessThan, number(2), number(1))),
        Ok(Value::Boolean { value: true })
    );
    assert_eq!(
        eval(binary(BinaryOp::LessThan, number(2), number(2))),
        Ok(Value::Boolean { value: false })
    );

    let mut other = Interpreter::with_config(ChaosConfig {
        add_multiplies: 100,
        multiply_adds: 100,
        ..quiet()
    });
    let mut eval = |expression: Expression| other.evaluate_expression_with(&expression, &tape);
    assert_eq!(eval(binary(BinaryOp::Add, number(5), number(3))), Ok(Value::Number { value: 15 }));
    assert_eq!(
        eval(binary(BinaryOp::Multiply, number(6), number(2))),
        Ok(Value::Number { value: 8 })
    );
    assert_eq!(
        eval(binary(BinaryOp::Multiply, number(6), number(0))),
        Err(RuntimeError::DivisionByZero)
    );
}

#[test]
fn the_draw_decides_between_the_two_wrong_operations() {
    let mut interpreter = Interpreter::with_config(ChaosConfig {
        add_multiplies: 50,
        multiply_adds: 50,
        ..quiet()
    });
    let sum = binary(BinaryOp::Add, number(5), number(3));
    let product = binary(BinaryOp::Multiply, number(6), number(2));
    // The operands take one draw each, the operation takes the third.
    assert_eq!(
        interpreter.evaluate_expression_with(&sum, &vec![0, 0, 49]),
        Ok(Value::Number { value: 15 })
    );
    assert_eq!(
        interpreter.evaluate_expression_with(&sum, &vec![0, 0, 50]),
        Ok(Value::Number { value: 2 })
    );
    assert_eq!(
        interpreter.evaluate_expression_with(&sum, &vec![0, 0, 149]),
        Ok(Value::Number { value: 15 })
    );
    assert_eq!(
        interpreter.evaluate_expression_with(&product, &vec![0, 0, 99]),
        Ok(Value::Number { value: 3 })
    );
    assert_eq!(
        interpreter.evaluate_expression_with(&product, &vec![0, 0, 100]),
        Ok(Value::Number { value: 8 })
    );
    // A draw past the end of the tape is 0.
    assert_eq!(
        interpreter.evaluate_expression_with(&sum, &vec![0, 0]),
        Ok(Value::Number { value: 15 })
    );
}

#[test]
fn chaotic_equality_is_a_coin() {
    let mut interpreter = Interpreter::with_config(quiet());
    let same = binary(BinaryOp::Equals, number(1), number(1));
    let different = binary(BinaryOp::Equals, number(1), number(2));
    assert_eq!(
        interpreter.evaluate_expression_with(&same, &vec![0, 0, 4]),
        Ok(Value::Boolean { value: false })
    );
    assert_eq!(
        interpreter.evaluate_expression_with(&same, &vec![0, 0, 5]),
        Ok(Value::Boolean { value: true })
    );
    assert_eq!(
        interpreter.evaluate_expression_with(&different, &vec![0, 0, 5]),
        Ok(Value::Boolean { value: true })
    );
    assert_eq!(
        interpreter.evaluate_binary_op(
            BinaryOp::Equals,
            Value::Number { value: 1 },
            Value::Number { value: 1 },
            7
        ),
        Ok(Value::Boolean { value: true })
    );
    assert_eq!(
        deterministic().evaluate_binary_op(
            BinaryOp::Add,
            Value::Number { value: 1 },
            Value::Number { value: 1 },
            7
        ),
        Ok(Value::Number { value: 2 })
    );
}

#[test]
fn literals_as_written() {
    let mut interpreter = deterministic();
    assert_eq!(interpreter.evaluate_expression(text("hi")), Ok(string_value("hi")));
    assert_eq!(interpreter.evaluate_expression(number(-3)), Ok(Value::Number { value: -3 }));
    assert_eq!(
        interpreter.evaluate_expression(Expression::Literal(Literal::Boolean(true))),
        Ok(Value::Boolean { value: true })
    );
    assert_eq!(
        interpreter.evaluate_expression(Expression::Literal(Literal::Null)),
        Ok(Value::Null)
    );
    assert_eq!(
        interpreter.evaluate_expression(array(vec![number(1), array(vec![]), text("x")])),
        Ok(Value::Array {
            values: vec![
                Value::Number { value: 1 },
                Value::Array { values: vec![] },
                string_value("x"),
            ],
        })
    );
    assert_eq!(
        interpreter.evaluate_literal(Literal::Number(9)),
        Value::Number { value: 9 }
    );
}

#[test]
fn elements_that_fail_are_left_out() {
    let mut interpreter = deterministic();
    assert_eq!(
        interpreter.evaluate_expression(array(vec![
            number(1),
            name("missing"),
            binary(BinaryOp::Multiply, number(1), number(0)),
            number(2),
        ])),
        Ok(Value::Array { values: vec![Value::Number { value: 1 }, Value::Number { value: 2 }] })
    );
    assert_eq!(
        interpreter.evaluate_expression(Expression::Literal(Literal::Object(vec![
            ("a".to_string(), Box::new(number(1))),
            ("b".to_string(), Box::new(name("missing"))),
            ("c".to_string(), Box::new(number(3))),
        ]))),
        Ok(Value::Object {
            fields: vec![
                ("a".to_string(), Value::Number { value: 1 }),
                ("c".to_string(), Value::Number { value: 3 }),
            ],
        })
    );
}

#[test]
fn a_key_that_occurs_again_replaces_the_earlier_value() {
    let mut interpreter = deterministic();
    assert_eq!(
        interpreter.evaluate_expression(Expression::Literal(Literal::Object(vec![
            ("a".to_string(), Box::new(number(1))),
            ("b".to_string(), Box::new(number(2))),
            ("a".to_string(), Box::new(number(3))),
        ]))),
        Ok(Value::Object {
            fields: vec![
                ("a".to_string(), Value::Number { value: 3 }),
                ("b".to_string(), Value::Number { value: 2 }),
            ],
        })
    );
}

#[test]
fn chaos_strikes_literals() {
    let mut interpreter = Interpreter::with_config(ChaosConfig {
        boolean_literal_chaos: 100,
        number_literal_chaos: 100,
        other_literal_chaos: 100,
        ..quiet()
    });
    let yes = Expression::Literal(Literal::Boolean(true));
    let no = Expression::Literal(Literal::Boolean(false));
    let mut eval = |expression: &Expression, second: u64| {
        interpreter.evaluate_expression_with(expression, &vec![0, second])
    };
    assert_eq!(eval(&yes, 0), Ok(Value::Boolean { value: false }));
    assert_eq!(eval(&no, 3), Ok(Value::Boolean { value: true }));
    assert_eq!(eval(&yes, 1), Ok(string_value("true")));
    assert_eq!(eval(&no, 4), Ok(string_value("false")));
    assert_eq!(eval(&yes, 2), Ok(Value::Number { value: 1 }));
    assert_eq!(eval(&no, 5), Ok(Value::Number { value: 0 }));
    assert_eq!(eval(&number(42), 0), Ok(Value::Boolean { value: true }));
    assert_eq!(eval(&number(0), 0), Ok(Value::Boolean { value: false }));
    let null = Expression::Literal(Literal::Null);
    assert_eq!(eval(&null, 0), Ok(string_value("null and void")));
    assert_eq!(eval(&text("x"), 1), Ok(Value::Number { value: 0 }));
    assert_eq!(eval(&array(vec![number(1)]), 2), Ok(Value::Boolean { value: false }));
    assert_eq!(eval(&null, 3), Ok(Value::Array { values: vec![Value::Null] }));
    assert_eq!(eval(&null, 4), Ok(Value::Object { fields: vec![] }));
    assert_eq!(
        interpreter.evaluate_literal_with(&Literal::Boolean(true), &vec![99, 7]),
        string_value("true")
    );
}

#[test]
fn the_first_draw_decides_whether_chaos_strikes_a_literal() {
    let mut interpreter = Interpreter::with_config(ChaosConfig {
        boolean_literal_chaos: 30,
        number_literal_chaos: 30,
        other_literal_chaos: 30,
        ..quiet()
    });
    let yes = Expression::Literal(Literal::Boolean(true));
    assert_eq!(
        interpreter.evaluate_expression_with(&yes, &vec![30, 0]),
        Ok(Value::Boolean { value: true })
    );
    assert_eq!(
        interpreter.evaluate_expression_with(&yes, &vec![29, 0]),
        Ok(Value::Boolean { value: false })
    );
    assert_eq!(
        interpreter.evaluate_expression_with(&number(7), &vec![130]),
        Ok(Value::Number { value: 7 })
    );
    assert_eq!(
        interpreter.evaluate_expression_with(&number(7), &vec![129]),
        Ok(Value::Boolean { value: true })
    );
    // An array that is spared evaluates its elements, which chaos may strike.
    assert_eq!(
        interpreter.evaluate_expression_with(&array(vec![number(1), number(2)]), &vec![50, 0, 50]),
        Ok(Value::Array { values: vec![Value::Boolean { value: true }, Value::Number { value: 2 }] })
    );
}

#[test]
fn variables_are_looked_up() {
    let mut interpreter = deterministic();
    interpreter
        .execute_statement(Statement::Let { name: "x".to_string(), value: number(5) })
        .unwrap();
    assert_eq!(interpreter.evaluate_expression(name("x")), Ok(Value::Number { value: 5 }));
    assert_eq!(interpreter.variable("x"), Some(Value::Number { value: 5 }));
    assert_eq!(
        interpreter.evaluate_expression(name("y")),
        Err(RuntimeError::UndefinedVariable("y".to_string()))
    );
    interpreter
        .execute_statement(Statement::Let { name: "x".to_string(), value: text("later") })
        .unwrap();
    assert_eq!(interpreter.evaluate_expression(name("x")), Ok(string_value("later")));
}

#[test]
fn a_variable_may_be_on_vacation() {
    let mut interpreter = Interpreter::with_config(ChaosConfig {
        identifier_vacation: 25,
        ..quiet()
    });
    interpreter
        .execute_statement_with(
            &Statement::Let { name: "x".to_string(), value: number(5) },
            &vec![],
        )
        .unwrap();
    assert_eq!(
        interpreter.evaluate_expression_with(&name("x"), &vec![25]),
        Ok(Value::Number { value: 5 })
    );
    assert_eq!(
        interpreter.evaluate_expression_with(&name("x"), &vec![24]),
        Err(RuntimeError::UndefinedVariable("x".to_string()))
    );
    assert_eq!(
        interpreter.evaluate_expression_with(&name("y"), &vec![99]),
        Err(RuntimeError::UndefinedVariable("y".to_string()))
    );
    assert_eq!(interpreter.variable("x"), Some(Value::Number { value: 5 }));
}

#[test]
fn calls_never_run_anything() {
    let call = Expression::FunctionCall { name: "work".to_string(), arguments: vec![name("no")] };
    assert_eq!(deterministic().evaluate_expression(call.clone()), Ok(Value::Null));
    let mut interpreter = Interpreter::with_config(ChaosConfig {
        call_null: 30,
        call_task_failed: 30,
        ..quiet()
    });
    assert_eq!(interpreter.evaluate_expression_with(&call, &vec![29]), Ok(Value::Null));
    assert_eq!(
        interpreter.evaluate_expression_with(&call, &vec![30]),
        Err(RuntimeError::TaskFailedSuccessfully)
    );
    assert_eq!(
        interpreter.evaluate_expression_with(&call, &vec![59]),
        Err(RuntimeError::TaskFailedSuccessfully)
    );
    assert_eq!(
        interpreter.evaluate_expression_with(&call, &vec![60]),
        Err(generic("Function work went to get coffee ☕"))
    );
    assert_eq!(
        interpreter.evaluate_expression_with(&call, &vec![199]),
        Err(generic("Function work went to get coffee ☕"))
    );
}

#[test]
fn exit_gives_up_after_its_limit() {
    let exit = Expression::FunctionCall { name: "exit".to_string(), arguments: vec![] };
    let failed = || Err(generic("Successfully failed to exit. Task failed successfully!"));
    let mut interpreter = deterministic();
    assert_eq!(interpreter.evaluate_expression(exit.clone()), failed());
    let effects = interpreter.take_effects();
    assert_eq!(effects.len(), 3 + 3 * 10);
    assert_eq!(
        effects[0],
        Effect::Say { text: "🤔 Contemplating the meaning of exit()...".to_string() }
    );
    assert_eq!(
        effects[3],
        Effect::Say { text: "🤯 What is the sound of one program looping?".to_string() }
    );
    assert_eq!(effects[4], Effect::Sleep { milliseconds: 2000 });
    assert_eq!(effects[13], effects[3]);
    assert_eq!(effects[32], Effect::Sleep { milliseconds: 2000 });

    let mut chaotic = Interpreter::with_config(quiet());
    assert_eq!(chaotic.evaluate_expression_with(&exit, &vec![]), failed());
    assert_eq!(chaotic.take_effects().len(), 3 + 3 * 10);

    let mut escaping = Interpreter::with_config(ChaosConfig {
        exit_escape: 1,
        exit_iteration_limit: 1000,
        ..quiet()
    });
    assert_eq!(escaping.evaluate_expression_with(&exit, &vec![1, 101, 250, 500, 0]), failed());
    assert_eq!(escaping.take_effects().len(), 3 + 4 * 10);

    let mut never = Interpreter::with_config(ChaosConfig { exit_iteration_limit: 0, ..quiet() });
    assert_eq!(never.evaluate_expression_with(&exit, &vec![]), failed());
    assert_eq!(never.take_effects().len(), 3);
}

#[test]
fn exit_takes_no_arguments() {
    let exit = Expression::FunctionCall { name: "exit".to_string(), arguments: vec![number(1)] };
    let mut interpreter = deterministic();
    assert_eq!(
        interpreter.evaluate_expression(exit),
        Err(generic("exit() doesn't need arguments, it won't use them anyway!"))
    );
    assert_eq!(interpreter.pending_effects(), 0);
}

#[test]
fn deterministic_access_finds_what_is_asked_for() {
    let mut interpreter = deterministic();
    let items = array(vec![number(10), number(20), number(30)]);
    assert_eq!(
        interpreter.evaluate_expression(access(items.clone(), number(0))),
        Ok(Value::Number { value: 10 })
    );
    assert_eq!(
        interpreter.evaluate_expression(access(items.clone(), number(2))),
        Ok(Value::Number { value: 30 })
    );
    assert_eq!(
        interpreter.evaluate_expression(access(items.clone(), number(3))),
        Err(generic("Index 3 is out of bounds. The array is playing hide and seek!"))
    );
    assert_eq!(
        interpreter.evaluate_expression(access(items.clone(), number(-1))),
        Err(generic("Index -1 is out of bounds. The array is playing hide and seek!"))
    );
    assert_eq!(
        interpreter.evaluate_expression(access(items.clone(), number(i64::MIN))),
        Err(generic(
            "Index -9223372036854775808 is out of bounds. The array is playing hide and seek!"
        ))
    );
    assert_eq!(
        interpreter.evaluate_expression(access(items.clone(), text("0"))),
        Err(generic("Array indices must be numbers! Did you try to index with a 🦄?"))
    );
    let object = Expression::Literal(Literal::Object(vec![
        ("value".to_string(), Box::new(number(42))),
        ("name".to_string(), Box::new(text("normal"))),
    ]));
    assert_eq!(
        interpreter.evaluate_expression(access(object.clone(), text("value"))),
        Ok(Value::Number { value: 42 })
    );
    assert_eq!(
        interpreter.evaluate_expression(access(object.clone(), text("name"))),
        Ok(string_value("normal"))
    );
    assert_eq!(
        interpreter.evaluate_expression(access(object.clone(), text("other"))),
        Err(generic("Key 'other' is missing. The object is playing hide and seek!"))
    );
    assert_eq!(
        interpreter.evaluate_expression(access(object.clone(), number(0))),
        Err(generic(
            "Object keys must be strings! What kind of chaos are you trying to create? 🎭"
        ))
    );
    assert_eq!(
        interpreter.evaluate_expression(access(number(1), text("x"))),
        Err(generic("Cannot access fields of non-object types. What did you expect?"))
    );
}

#[test]
fn chaotic_access() {
    let mut interpreter = Interpreter::with_config(ChaosConfig {
        array_vacation: 40,
        array_random_element: 30,
        object_swap: 30,
        ..quiet()
    });
    let items = array(vec![number(10), number(20), number(30)]);
    let first = access(items.clone(), number(0));
    // Four draws go to the literals, then access draws.
    assert_eq!(
        interpreter.evaluate_expression_with(&first, &vec![0, 0, 0, 0, 0, 39]),
        Err(RuntimeError::ArrayVacation)
    );
    assert_eq!(
        interpreter.evaluate_expression_with(&first, &vec![0, 0, 0, 0, 0, 40, 30]),
        Ok(Value::Number { value: 10 })
    );
    assert_eq!(
        interpreter.evaluate_expression_with(&first, &vec![0, 0, 0, 0, 0, 40, 29, 5]),
        Ok(Value::Number { value: 30 })
    );
    assert_eq!(
        interpreter.evaluate_expression_with(&first, &vec![0, 0, 0, 0, 0, 40, 29, 4]),
        Ok(Value::Number { value: 20 })
    );
    assert_eq!(
        interpreter.evaluate_expression_with(
            &access(array(vec![]), number(0)),
            &vec![0, 0, 40, 29]
        ),
        Err(generic("Array is empty, just like my promises!"))
    );
    assert_eq!(
        interpreter.evaluate_expression_with(
            &access(array(vec![]), number(0)),
            &vec![0, 0, 40, 30]
        ),
        Err(generic("Index 0 is out of bounds. The array is playing hide and seek!"))
    );
    let object = Expression::Literal(Literal::Object(vec![
        ("a".to_string(), Box::new(number(1))),
        ("b".to_string(), Box::new(number(2))),
    ]));
    assert_eq!(
        interpreter.evaluate_expression_with(&access(object.clone(), text("a")), &vec![]),
        Err(RuntimeError::ObjectChaos)
    );
    assert_eq!(
        interpreter.evaluate_expression_with(
            &access(object.clone(), text("a")),
            &vec![0, 0, 0, 0, 99]
        ),
        Err(RuntimeError::ObjectChaos)
    );
    assert_eq!(
        interpreter.evaluate_expression_with(&access(object, number(1)), &vec![]),
        Err(generic(
            "Object keys must be strings! What kind of chaos are you trying to create? 🎭"
        ))
    );
    assert_eq!(
        interpreter.evaluate_expression_with(&access(number(1), number(1)), &vec![]),
        Err(generic("Cannot access fields of non-object types. What did you expect?"))
    );
}

#[test]
fn promises_take_their_time() {
    let promise = |timeout: Option<i64>| Expression::Promise {
        value: Box::new(number(7)),
        timeout: timeout.map(|limit| Box::new(number(limit))),
    };
    let resolved = || {
        Ok(Value::Promise { value: Box::new(Value::Number { value: 7 }), resolved: true })
    };
    let mut interpreter = deterministic();
    assert_eq!(interpreter.evaluate_expression(promise(None)), resolved());
    assert_eq!(interpreter.take_effects(), vec![Effect::Sleep { milliseconds: 100 }]);
    assert_eq!(interpreter.evaluate_expression(promise(Some(100))), resolved());
    assert_eq!(
        interpreter.evaluate_expression(promise(Some(99))),
        Err(RuntimeError::AsyncTimeout)
    );
    assert_eq!(interpreter.evaluate_expression(promise(Some(-1))), resolved());
    assert_eq!(
        interpreter.evaluate_expression(Expression::Promise {
            value: Box::new(number(7)),
            timeout: Some(Box::new(text("soon"))),
        }),
        resolved()
    );
    assert_eq!(
        interpreter.evaluate_expression(Expression::Promise {
            value: Box::new(name("missing")),
            timeout: None,
        }),
        Err(RuntimeError::UndefinedVariable("missing".to_string()))
    );

    let mut chaotic = Interpreter::with_config(ChaosConfig { promise_rejection: 40, ..quiet() });
    // One draw for the value, one for the rejection, one for the delay.
    assert_eq!(
        chaotic.evaluate_expression_with(&promise(None), &vec![0, 39]),
        Err(RuntimeError::PromiseRejected)
    );
    assert_eq!(chaotic.take_effects(), vec![]);
    assert_eq!(chaotic.evaluate_expression_with(&promise(None), &vec![0, 40, 1234]), resolved());
    assert_eq!(chaotic.take_effects(), vec![Effect::Sleep { milliseconds: 1334 }]);
    assert_eq!(chaotic.evaluate_expression_with(&promise(None), &vec![0, 40, 1899]), resolved());
    assert_eq!(chaotic.take_effects(), vec![Effect::Sleep { milliseconds: 1999 }]);
    assert_eq!(chaotic.evaluate_expression_with(&promise(None), &vec![0, 40, 1900]), resolved());
    assert_eq!(chaotic.take_effects(), vec![Effect::Sleep { milliseconds: 100 }]);
    assert_eq!(
        chaotic.evaluate_expression_with(&promise(Some(1000)), &vec![0, 40, 901]),
        Err(RuntimeError::AsyncTimeout)
    );
    assert_eq!(
        chaotic.evaluate_expression_with(&promise(Some(1000)), &vec![0, 40, 900]),
        resolved()
    );
}

#[test]
fn awaiting() {
    let awaited = |inner: Expression| Expression::Await { promise: Box::new(inner) };
    let promise = Expression::Promise { value: Box::new(text("done")), timeout: None };
    let mut interpreter = deterministic();
    assert_eq!(interpreter.evaluate_expression(awaited(promise.clone())), Ok(string_value("done")));
    assert_eq!(
        interpreter.evaluate_expression(awaited(number(1))),
        Err(generic("Can't await something that isn't a promise! 🤯"))
    );
    let mut chaotic = Interpreter::with_config(ChaosConfig { await_changed_mind: 20, ..quiet() });
    assert_eq!(
        chaotic.evaluate_expression_with(&awaited(promise.clone()), &vec![0, 0, 0, 20]),
        Ok(string_value("done"))
    );
    assert_eq!(
        chaotic.evaluate_expression_with(&awaited(promise), &vec![0, 0, 0, 19]),
        Ok(string_value("Promise changed its mind 🤔"))
    );
}

#[test]
fn printing_is_recorded() {
    let mut interpreter = deterministic();
    interpreter.execute_statement(Statement::Print { value: text("hello") }).unwrap();
    interpreter.execute_statement(Statement::Print { value: number(2) }).unwrap();
    assert_eq!(interpreter.pending_effects(), 2);
    assert_eq!(
        interpreter.take_effects(),
        vec![
            Effect::Print { value: string_value("hello") },
            Effect::Print { value: Value::Number { value: 2 } },
        ]
    );
    assert_eq!(interpreter.pending_effects(), 0);
    assert_eq!(interpreter.take_effects(), vec![]);
    assert_eq!(
        interpreter.execute_statement(Statement::Print { value: name("missing") }),
        Err(RuntimeError::UndefinedVariable("missing".to_string()))
    );
    assert_eq!(interpreter.pending_effects(), 0);
}

#[test]
fn chaotic_printing_opens_a_browser_first() {
    let print = Statement::Print { value: number(1) };
    let mut interpreter = Interpreter::with_config(ChaosConfig {
        print_browser: 50,
        print_failure: 50,
        ..quiet()
    });
    // One draw for the literal, one for the browser, one for the URL, one for the failure.
    assert_eq!(interpreter.execute_statement_with(&print, &vec![0, 49, 12, 50]), Ok(()));
    assert_eq!(
        interpreter.take_effects(),
        vec![
            Effect::OpenUrl { url: "https://zombo.com".to_string() },
            Effect::Print { value: Value::Number { value: 1 } },
        ]
    );
    assert_eq!(
        interpreter.execute_statement_with(&print, &vec![0, 49, 9, 49]),
        Err(RuntimeError::StylePoints)
    );
    assert_eq!(
        interpreter.take_effects(),
        vec![Effect::OpenUrl { url: "https://heeeeeeeey.com".to_string() }]
    );
    assert_eq!(interpreter.execute_statement_with(&print, &vec![0, 50, 50]), Ok(()));
    assert_eq!(
        interpreter.take_effects(),
        vec![Effect::Print { value: Value::Number { value: 1 } }]
    );
    assert_eq!(
        interpreter.execute_statement_with(&print, &vec![0, 50, 49]),
        Err(RuntimeError::StylePoints)
    );
    assert_eq!(interpreter.take_effects(), vec![]);
}

#[test]
fn without_a_browser_printing_fails() {
    let print = Statement::Print { value: number(1) };
    let mut interpreter = Interpreter::with_config(ChaosConfig { print_browser: 100, ..quiet() });
    interpreter.set_browser_available(false);
    assert_eq!(
        interpreter.execute_statement_with(&print, &vec![]),
        Err(RuntimeError::BrowserError)
    );
    assert_eq!(interpreter.take_effects(), vec![]);
    interpreter.set_browser_available(true);
    assert_eq!(interpreter.execute_statement_with(&print, &vec![]), Ok(()));
    assert_eq!(interpreter.pending_effects(), 2);
    // The deterministic strategy never opens a browser.
    let mut careful = deterministic();
    careful.set_browser_available(false);
    assert_eq!(careful.execute_statement(print), Ok(()));
}

#[test]
fn chaotic_let_may_bind_nothing() {
    let bind = Statement::Let { name: "x".to_string(), value: number(1) };
    let mut interpreter = Interpreter::with_config(ChaosConfig { let_failure: 20, ..quiet() });
    assert_eq!(
        interpreter.execute_statement_with(&bind, &vec![0, 19]),
        Err(RuntimeError::UndefinedVariable("x".to_string()))
    );
    assert_eq!(interpreter.variable("x"), None);
    assert_eq!(interpreter.execute_statement_with(&bind, &vec![0, 20]), Ok(()));
    assert_eq!(interpreter.variable("x"), Some(Value::Number { value: 1 }));
}

#[test]
fn deterministic_if_takes_the_branch_of_its_condition() {
    let branch = |condition: Expression, with_else: bool| Statement::If {
        condition,
        then_branch: vec![Statement::Print { value: text("then") }],
        else_branch: if with_else {
            Some(vec![Statement::Print { value: text("else") }])
        } else {
            None
        },
    };
    let yes = || Expression::Literal(Literal::Boolean(true));
    let no = || Expression::Literal(Literal::Boolean(false));
    let mut interpreter = deterministic();
    assert_eq!(interpreter.execute_statement(branch(yes(), true)), Ok(()));
    assert_eq!(interpreter.take_effects(), vec![Effect::Print { value: string_value("then") }]);
    assert_eq!(interpreter.execute_statement(branch(no(), true)), Ok(()));
    assert_eq!(interpreter.take_effects(), vec![Effect::Print { value: string_value("else") }]);
    assert_eq!(interpreter.execute_statement(branch(no(), false)), Ok(()));
    assert_eq!(interpreter.take_effects(), vec![]);
    assert_eq!(
        interpreter.execute_statement(branch(number(1), true)),
        Err(generic("Condition must be a boolean"))
    );
    assert_eq!(
        interpreter.execute_statement(branch(name("missing"), true)),
        Err(RuntimeError::UndefinedVariable("missing".to_string()))
    );
}

#[test]
fn chaotic_if_takes_the_else_branch() {
    let branch = |with_else: bool| Statement::If {
        condition: name("never evaluated"),
        then_branch: vec![Statement::Print { value: text("then") }],
        else_branch: if with_else {
            Some(vec![Statement::Print { value: text("else") }])
        } else {
            None
        },
    };
    let mut interpreter = Interpreter::with_config(ChaosConfig { if_failure: 15, ..quiet() });
    assert_eq!(interpreter.execute_statement_with(&branch(true), &vec![15]), Ok(()));
    assert_eq!(interpreter.take_effects(), vec![Effect::Print { value: string_value("else") }]);
    assert_eq!(
        interpreter.execute_statement_with(&branch(true), &vec![14]),
        Err(RuntimeError::CreativeBreakage)
    );
    assert_eq!(interpreter.execute_statement_with(&branch(false), &vec![0]), Ok(()));
    assert_eq!(interpreter.take_effects(), vec![]);
}

#[test]
fn declarations_bind_descriptors() {
    let descriptor = |kind: &str| Value::Object {
        fields: vec![
            ("type".to_string(), string_value(kind)),
            (
                "params".to_string(),
                Value::Array { values: vec![string_value("a"), string_value("b")] },
            ),
        ],
    };
    let parameters = || vec!["a".to_string(), "b".to_string()];
    let body = || vec![Statement::Print { value: text("never runs") }];
    let mut interpreter = deterministic();
    interpreter
        .execute_statement(Statement::Function {
            name: "f".to_string(),
            parameters: parameters(),
            body: body(),
        })
        .unwrap();
    interpreter
        .execute_statement(Statement::AsyncFunction {
            name: "g".to_string(),
            parameters: parameters(),
            body: body(),
        })
        .unwrap();
    assert_eq!(interpreter.variable("f"), Some(descriptor("function")));
    assert_eq!(interpreter.variable("g"), Some(descriptor("async_function")));
    assert_eq!(interpreter.pending_effects(), 0);
    assert_eq!(
        interpreter.evaluate_expression(access(name("f"), text("type"))),
        Ok(string_value("function"))
    );

    let mut chaotic = Interpreter::with_config(ChaosConfig {
        async_declaration_failure: 30,
        ..quiet()
    });
    let declaration = Statement::AsyncFunction {
        name: "g".to_string(),
        parameters: parameters(),
        body: body(),
    };
    assert_eq!(
        chaotic.execute_statement_with(&declaration, &vec![29]),
        Err(RuntimeError::AsyncTimeout)
    );
    assert_eq!(chaotic.variable("g"), None);
    assert_eq!(chaotic.execute_statement_with(&declaration, &vec![30]), Ok(()));
    assert_eq!(chaotic.variable("g"), Some(descriptor("async_function")));
}

#[test]
fn try_catch_binds_the_text_of_the_error() {
    let guarded = |statement: Statement| Statement::TryCatch {
        try_block: vec![Statement::Print { value: text("before") }, statement],
        error_var: "e".to_string(),
        catch_block: vec![Statement::Print { value: name("e") }],
    };
    let mut interpreter = deterministic();
    assert_eq!(
        interpreter.execute_statement(guarded(Statement::Save { filename: "f".to_string() })),
        Ok(())
    );
    assert_eq!(
        interpreter.take_effects(),
        vec![
            Effect::Print { value: string_value("before") },
            Effect::Print {
                value: string_value(
                    "Saving is overrated. Maybe try writing it down with a crayon instead? 📝"
                ),
            },
        ]
    );
    assert_eq!(
        interpreter.execute_statement(guarded(Statement::Print { value: text("fine") })),
        Ok(())
    );
    assert_eq!(interpreter.take_effects().len(), 2);

    let mut chaotic = Interpreter::with_config(ChaosConfig { catch_wrong_error: 40, ..quiet() });
    let failing = guarded(Statement::Expression(name("missing")));
    assert_eq!(chaotic.execute_statement_with(&failing, &vec![0, 0, 0, 40]), Ok(()));
    assert_eq!(
        chaotic.variable("e"),
        Some(string_value(
            "Variable 'missing' not found. Have you tried looking under the couch?"
        ))
    );
    assert_eq!(chaotic.execute_statement_with(&failing, &vec![0, 0, 0, 39]), Ok(()));
    assert_eq!(chaotic.variable("e"), Some(string_value("Caught the wrong error! 🎭")));
}

#[test]
fn an_error_in_the_catch_block_propagates() {
    let mut interpreter = deterministic();
    assert_eq!(
        interpreter.execute_statement(Statement::TryCatch {
            try_block: vec![Statement::Expression(name("missing"))],
            error_var: "e".to_string(),
            catch_block: vec![
                Statement::Save { filename: "f".to_string() },
                Statement::Print { value: text("never") },
            ],
        }),
        Err(RuntimeError::SaveError)
    );
    assert_eq!(interpreter.pending_effects(), 0);
}

#[test]
fn modules_run_their_body_and_uses_do_nothing() {
    let mut interpreter = deterministic();
    assert_eq!(
        interpreter.execute_statement(Statement::Module {
            name: "m".to_string(),
            body: vec![
                Statement::Use { path: "a::b".to_string() },
                Statement::Let { name: "x".to_string(), value: number(1) },
                Statement::Expression(name("missing")),
                Statement::Let { name: "y".to_string(), value: number(2) },
            ],
        }),
        Err(RuntimeError::UndefinedVariable("missing".to_string()))
    );
    assert_eq!(interpreter.variable("x"), Some(Value::Number { value: 1 }));
    assert_eq!(interpreter.variable("y"), None);
}

#[test]
fn bare_directives_stay() {
    let mut interpreter = Interpreter::with_config(quiet());
    interpreter
        .execute_statement_with(&Statement::Directive { name: "experimental".to_string() }, &vec![])
        .unwrap();
    assert!(interpreter.has_directive("experimental"));
    assert!(!interpreter.has_directive("disable_useless"));
    assert_eq!(interpreter.pending_effects(), 0);
    interpreter
        .execute_statement_with(&Statement::Directive { name: "whatever".to_string() }, &vec![])
        .unwrap();
    assert!(!interpreter.has_directive("whatever"));
    assert_eq!(
        interpreter.take_effects(),
        vec![Effect::Say { text: "Warning: Unknown directive #whatever".to_string() }]
    );
    interpreter
        .execute_statement_with(
            &Statement::Directive { name: "disable_all_useless_shit".to_string() },
            &vec![],
        )
        .unwrap();
    assert!(!interpreter.is_normal());
    assert_eq!(interpreter.pending_effects(), 1);
}

#[test]
fn await_statements() {
    let wait = Statement::Await { expression: number(1) };
    let mut interpreter = deterministic();
    assert_eq!(interpreter.execute_statement(wait.clone()), Ok(()));
    interpreter.set_config(ChaosConfig { await_times_out: true, ..quiet() });
    assert_eq!(interpreter.execute_statement(wait.clone()), Err(RuntimeError::AsyncTimeout));
    assert_eq!(
        interpreter.execute_statement(Statement::Await { expression: name("missing") }),
        Err(RuntimeError::UndefinedVariable("missing".to_string()))
    );
    let mut chaotic = Interpreter::with_config(ChaosConfig {
        await_failure: 40,
        await_times_out: true,
        ..quiet()
    });
    assert_eq!(chaotic.execute_statement_with(&wait, &vec![0, 40]), Ok(()));
    assert_eq!(
        chaotic.execute_statement_with(&wait, &vec![0, 39]),
        Err(RuntimeError::AsyncTimeout)
    );
}

#[test]
fn programs_may_fail_before_and_after_their_statements() {
    let program = vec![Statement::Print { value: number(1) }];
    let mut interpreter = Interpreter::with_config(ChaosConfig {
        startup_failure: 10,
        shutdown_failure: 20,
        ..quiet()
    });
    assert_eq!(interpreter.interpret_with(&program, &vec![9]), Err(RuntimeError::Teapot));
    assert_eq!(interpreter.pending_effects(), 0);
    // The first draw is for the start, then three for the statement, then one for the end.
    assert_eq!(
        interpreter.interpret_with(&program, &vec![10, 0, 0, 0, 19]),
        Err(RuntimeError::PerfectlyWrong)
    );
    assert_eq!(interpreter.take_effects().len(), 1);
    assert_eq!(interpreter.interpret_with(&program, &vec![10, 0, 0, 0, 20]), Ok(()));
    assert_eq!(interpreter.take_effects().len(), 1);
    assert_eq!(interpreter.interpret_with(&vec![], &vec![10, 19]), Err(RuntimeError::PerfectlyWrong));
    assert_eq!(
        interpreter.interpret_with(
            &vec![Statement::Save { filename: "f".to_string() }, Statement::Print { value: number(1) }],
            &vec![10, 0]
        ),
        Err(RuntimeError::SaveError)
    );
    assert_eq!(interpreter.pending_effects(), 0);
}

#[test]
fn every_error_describes_itself() {
    let texts = vec![
        (
            RuntimeError::UndefinedVariable("x".to_string()),
            "Variable 'x' not found. Have you tried looking under the couch?",
        ),
        (
            RuntimeError::DivisionByZero,
            "Division by zero. Congratulations, you've broken mathematics! 🎉",
        ),
        (
            RuntimeError::BrowserError,
            "Failed to open browser tab. Either your internet is as reliable as a chocolate \
             teapot, or the universe is working exactly as intended.",
        ),
        (
            RuntimeError::SaveError,
            "Saving is overrated. Maybe try writing it down with a crayon instead? 📝",
        ),
        (
            RuntimeError::Generic("this".to_string()),
            "You've achieved the impossible: this. Here's a virtual cookie 🍪",
        ),
        (RuntimeError::TaskFailedSuccessfully, "Task failed successfully! Error code: 42"),
        (
            RuntimeError::PerfectlyWrong,
            "Your code is running exactly as intended... which means everything is wrong",
        ),
        (
            RuntimeError::Teapot,
            "Error 418: I'm a teapot. Yes, really. No, I won't make coffee. ☕",
        ),
        (
            RuntimeError::StylePoints,
            "Your code is so bad, it's good. Task failed successfully with style! 🎨",
        ),
        (
            RuntimeError::CreativeBreakage,
            "Congratulations! You've discovered a new way to break things! 🎈",
        ),
        (RuntimeError::PromiseRejected, "Promise rejected because Mercury is in retrograde 🌠"),
        (
            RuntimeError::ArrayVacation,
            "Array decided to take a vacation to the Bermuda Triangle 🏖️",
        ),
        (
            RuntimeError::ObjectChaos,
            "Object keys had an identity crisis and swapped places 🔄",
        ),
        (RuntimeError::AsyncTimeout, "Async function went async-fishing 🎣"),
    ];
    for (error, expected) in texts {
        assert_eq!(error.to_string(), expected);
    }
}

#[test]
fn values_copy_and_compare() {
    let value = Value::Object {
        fields: vec![
            ("list".to_string(), Value::Array { values: vec![Value::Null, string_value("x")] }),
            (
                "promise".to_string(),
                Value::Promise { value: Box::new(Value::Boolean { value: true }), resolved: false },
            ),
        ],
    };
    let copy = value.clone();
    assert_eq!(copy, value);
    assert_ne!(copy, Value::Null);
}
