use useless_lang::ast::{BinaryOp, Expression, Literal, Program, Statement};
use useless_lang::interpreter::{Effect, Interpreter, RuntimeError, Value};
use useless_lang::lexer::Lexer;
use useless_lang::parser::Parser;
use useless_lang::tape::{
    count_expression_draws, count_program_draws, count_statement_draws, fresh_tape, TAPE_LIMIT,
};

fn parse(source: &str) -> Program {
    Parser::new(Lexer::new(source).collect()).parse().expect("the source is a program")
}

fn number(value: i64) -> Expression {
    Expression::Literal(Literal::Number(value))
}

fn under(name: &str, statement: Statement) -> Statement {
    Statement::Attributed { name: name.to_string(), statement: Box::new(statement) }
}

fn printed_numbers(effects: Vec<Effect>) -> Vec<i64> {
    effects
        .into_iter()
        .filter_map(|effect| match effect {
            Effect::Print { value: Value::Number { value } } => Some(value),
            _ => None,
        })
        .collect()
}

const NORMAL: &str = "disable_all_useless_shit";

fn normal_program(source: &str) -> Program {
    let mut program = vec![Statement::Directive { name: NORMAL.to_string() }];
    program.extend(parse(source));
    program
}

#[test]
fn under_disable_useless_the_sum_of_five_and_three_is_eight() {
    let program = parse("let x = 5; print(add(x, 3));");
    for _ in 0..50 {
        let mut interpreter = Interpreter::new();
        for statement in program.clone() {
            assert_eq!(interpreter.execute_statement(under("disable_useless", statement)), Ok(()));
        }
        assert_eq!(
            interpreter.take_effects(),
            vec![Effect::Print { value: Value::Number { value: 8 } }]
        );
    }
}

#[test]
fn from_source_with_directives_the_sum_of_five_and_three_is_eight() {
    let program = parse(
        "#[directive(disable_useless)] let x = 5; #[directive(disable_useless)] print(add(x, 3));",
    );
    for _ in 0..50 {
        let mut interpreter = Interpreter::new();
        for statement in program.clone() {
            assert_eq!(interpreter.execute_statement(statement), Ok(()));
            assert!(!interpreter.has_directive("disable_useless"));
        }
        assert_eq!(printed_numbers(interpreter.take_effects()), vec![8]);
    }
}

#[test]
fn in_chaos_the_sum_of_five_and_three_is_two_or_fifteen() {
    let program = parse("let x = 5; print(add(x, 3));");
    let mut seen_two = false;
    let mut seen_fifteen = false;
    for _ in 0..2000 {
        let mut interpreter = Interpreter::new();
        let _ = interpreter.interpret(program.clone());
        for value in printed_numbers(interpreter.take_effects()) {
            assert!(value == 2 || value == 15, "printed {}", value);
            seen_two = seen_two || value == 2;
            seen_fifteen = seen_fifteen || value == 15;
        }
    }
    assert!(seen_two && seen_fifteen);
}

#[test]
fn in_deterministic_mode_arithmetic_is_exact() {
    let mut interpreter = Interpreter::new();
    let program = normal_program(
        "let x = 42; let y = 10; let sum = add(x, y); let product = multiply(x, y); \
         let isEqual = equals(sum, 52); let isLess = lessThan(sum, 100); \
         let arr = [1, 2, 3]; let first = access(arr, 0); \
         let obj = { \"value\": 42, \"name\": \"normal\" }; let val = access(obj, \"value\"); \
         async processData(data) { try { let result = promise(data, 1000); await result; } \
         catch error { print(error); } } \
         let result = processData(42);",
    );
    assert_eq!(interpreter.interpret(program), Ok(()));
    assert!(interpreter.is_normal());
    assert_eq!(interpreter.variable("sum"), Some(Value::Number { value: 52 }));
    assert_eq!(interpreter.variable("product"), Some(Value::Number { value: 420 }));
    assert_eq!(interpreter.variable("isEqual"), Some(Value::Boolean { value: true }));
    assert_eq!(interpreter.variable("isLess"), Some(Value::Boolean { value: true }));
    assert_eq!(interpreter.variable("first"), Some(Value::Number { value: 1 }));
    assert_eq!(interpreter.variable("val"), Some(Value::Number { value: 42 }));
    assert_eq!(interpreter.variable("result"), Some(Value::Null));
    assert_eq!(interpreter.pending_effects(), 0);
}

#[test]
fn multiply_by_zero_is_a_division_by_zero_in_every_mode() {
    let by_zero = Expression::BinaryOp {
        op: BinaryOp::Multiply,
        left: Box::new(number(10)),
        right: Box::new(number(0)),
    };
    let mut normal = Interpreter::new();
    assert_eq!(
        normal.interpret(vec![
            Statement::Directive { name: NORMAL.to_string() },
            Statement::Expression(by_zero.clone()),
        ]),
        Err(RuntimeError::DivisionByZero)
    );
    let mut scoped = Interpreter::new();
    assert_eq!(
        scoped.execute_statement(under("disable_useless", Statement::Expression(by_zero.clone()))),
        Err(RuntimeError::DivisionByZero)
    );
    let mut chaotic = Interpreter::new();
    for _ in 0..200 {
        match chaotic.evaluate_expression(by_zero.clone()) {
            Err(RuntimeError::DivisionByZero) => (),
            // Chaos may have struck an operand before the operation.
            Err(RuntimeError::Generic(message)) => {
                assert_eq!(message, "Invalid types for multiplication")
            }
            other => panic!("unexpected {:?}", other),
        }
    }
}

#[test]
fn a_loop_runs_its_first_statement_only() {
    let body = "loop { print(1); print(2); print(3); }";
    let mut normal = Interpreter::new();
    assert_eq!(normal.interpret(normal_program(body)), Ok(()));
    assert_eq!(printed_numbers(normal.take_effects()), vec![1]);

    let mut empty = Interpreter::new();
    assert_eq!(empty.interpret(normal_program("loop { }")), Ok(()));
    assert_eq!(empty.pending_effects(), 0);

    let statement = parse(body).remove(0);
    for _ in 0..300 {
        let mut chaotic = Interpreter::new();
        let result = chaotic.execute_statement(statement.clone());
        let printed = chaotic
            .take_effects()
            .into_iter()
            .filter(|effect| matches!(effect, Effect::Print { .. }))
            .count();
        assert!(printed <= 1);
        if printed == 1 {
            assert_eq!(result, Ok(()));
        }
    }
}

#[test]
fn a_loop_may_fail_before_its_statement() {
    let statement = parse("loop { print(1); }").remove(0);
    let mut seen_failure = false;
    let mut seen_success = false;
    for _ in 0..300 {
        let mut chaotic = Interpreter::new();
        match chaotic.execute_statement(statement.clone()) {
            Err(RuntimeError::TaskFailedSuccessfully) => {
                seen_failure = chaotic.pending_effects() == 0 || seen_failure
            }
            Ok(()) => seen_success = true,
            Err(_) => (),
        }
    }
    assert!(seen_failure && seen_success);
}

#[test]
fn a_directive_is_active_while_its_statement_runs_and_not_after() {
    for name in ["disable_useless", "experimental", "unheard_of"] {
        let mut interpreter = Interpreter::new();
        let _ = interpreter.execute_statement(under(name, Statement::Expression(number(1))));
        assert!(!interpreter.has_directive(name));
        assert_eq!(
            interpreter.execute_statement(under(
                name,
                under("disable_useless", Statement::Save { filename: "f".to_string() })
            )),
            Err(RuntimeError::SaveError)
        );
        assert!(!interpreter.has_directive(name));
        assert!(!interpreter.has_directive("disable_useless"));
    }
    // While the statement runs the directive is active: under
    // `disable_useless` nothing happens by chance.
    let mut interpreter = Interpreter::new();
    for _ in 0..100 {
        assert_eq!(
            interpreter.execute_statement(under(
                "disable_useless",
                Statement::Let {
                    name: "x".to_string(),
                    value: Expression::Literal(Literal::Boolean(true)),
                }
            )),
            Ok(())
        );
        assert_eq!(interpreter.variable("x"), Some(Value::Boolean { value: true }));
    }
}

#[test]
fn a_scoped_directive_ends_a_lasting_one_of_the_same_name() {
    let mut interpreter = Interpreter::new();
    interpreter
        .execute_statement(Statement::Directive { name: "experimental".to_string() })
        .unwrap();
    assert!(interpreter.has_directive("experimental"));
    let _ = interpreter.execute_statement(under("experimental", Statement::Expression(number(1))));
    assert!(!interpreter.has_directive("experimental"));
}

#[test]
fn an_unknown_directive_gives_a_warning() {
    let mut interpreter = Interpreter::new();
    let _ = interpreter.execute_statement(under(
        "unheard_of",
        under("disable_useless", Statement::Expression(number(1))),
    ));
    assert_eq!(
        interpreter.take_effects(),
        vec![Effect::Say { text: "Warning: Unknown directive #unheard_of".to_string() }]
    );
}

#[test]
fn the_first_directive_makes_the_whole_program_deterministic() {
    let source = "let a = true; let b = [1, null, \"x\"]; print(add(2, 2)); \
                  if (a) { print(1); } else { print(2); } \
                  loop { print(3); print(4); } \
                  try { save \"f\"; } catch e { print(5); } \
                  mod m { print(multiply(3, 3)); } use a::b; \
                  async f(x) { print(6); } g(h) { print(7); } print(f()); await a; \
                  #[directive(experimental)] print(lessThan(1, 2));";
    for _ in 0..50 {
        let mut interpreter = Interpreter::new();
        assert_eq!(interpreter.interpret(normal_program(source)), Ok(()));
        assert!(interpreter.is_normal());
        assert!(!interpreter.has_directive(NORMAL));
        assert_eq!(
            interpreter.take_effects(),
            vec![
                Effect::Print { value: Value::Number { value: 4 } },
                Effect::Print { value: Value::Number { value: 1 } },
                Effect::Print { value: Value::Number { value: 3 } },
                Effect::Print { value: Value::Number { value: 5 } },
                Effect::Print { value: Value::Number { value: 9 } },
                Effect::Print { value: Value::Null },
                Effect::Print { value: Value::Boolean { value: true } },
            ]
        );
        // Deterministic mode stays on for later programs too.
        assert_eq!(interpreter.interpret(parse("print(add(1, 1));")), Ok(()));
        assert_eq!(printed_numbers(interpreter.take_effects()), vec![2]);
    }
}

#[test]
fn the_first_directive_is_not_run_as_a_statement() {
    let mut interpreter = Interpreter::new();
    assert_eq!(
        interpreter.interpret(vec![Statement::Directive { name: NORMAL.to_string() }]),
        Ok(())
    );
    // Run as a statement, the directive would give a warning.
    assert_eq!(interpreter.pending_effects(), 0);
    assert!(interpreter.is_normal());
    // Anywhere else it is an unknown directive.
    let mut later = Interpreter::new();
    later.set_config(useless_lang::ChaosConfig {
        startup_failure: 0,
        shutdown_failure: 0,
        ..Interpreter::default_config()
    });
    assert_eq!(
        later.interpret(vec![
            Statement::Use { path: "a".to_string() },
            Statement::Directive { name: NORMAL.to_string() },
        ]),
        Ok(())
    );
    assert!(!later.is_normal());
    assert_eq!(
        later.take_effects(),
        vec![Effect::Say { text: format!("Warning: Unknown directive #{}", NORMAL) }]
    );
}

#[test]
fn save_never_succeeds() {
    let save = parse("save(\"a.txt\");");
    assert_eq!(save, vec![Statement::Save { filename: "a.txt".to_string() }]);
    let mut normal = Interpreter::new();
    assert_eq!(normal.interpret(normal_program("save(\"a.txt\");")), Err(RuntimeError::SaveError));
    for _ in 0..100 {
        let mut fresh = Interpreter::new();
        assert!(fresh.interpret(parse("save(\"a.txt\");")).is_err());
    }
    let mut scoped = Interpreter::new();
    assert_eq!(
        scoped.execute_statement(under("disable_useless", save[0].clone())),
        Err(RuntimeError::SaveError)
    );
    let mut chaotic = Interpreter::new();
    let mut kinds = [false; 3];
    for draw in 0..300u64 {
        let result = if draw < 6 {
            chaotic.execute_statement_with(&save[0], &vec![draw])
        } else {
            chaotic.execute_statement(save[0].clone())
        };
        match result {
            Err(RuntimeError::SaveError) => kinds[0] = true,
            Err(RuntimeError::TaskFailedSuccessfully) => kinds[1] = true,
            Err(RuntimeError::StylePoints) => kinds[2] = true,
            other => panic!("unexpected {:?}", other),
        }
        if draw < 6 {
            assert_eq!(
                result,
                Err(match draw % 3 {
                    0 => RuntimeError::SaveError,
                    1 => RuntimeError::TaskFailedSuccessfully,
                    _ => RuntimeError::StylePoints,
                })
            );
        }
    }
    assert_eq!(kinds, [true; 3]);
    assert_eq!(chaotic.pending_effects(), 0);
}

#[test]
fn a_try_without_catch_swallows_the_error() {
    let source = "try { print(1); save(\"a.txt\"); print(2); } print(3);";
    let mut normal = Interpreter::new();
    assert_eq!(normal.interpret(normal_program(source)), Ok(()));
    assert_eq!(printed_numbers(normal.take_effects()), vec![1, 3]);
    assert_eq!(
        normal.variable(""),
        Some(Value::String {
            value: "Saving is overrated. Maybe try writing it down with a crayon instead? 📝"
                .to_string(),
        })
    );
    let statement = parse("try { multiply(10, 0); }").remove(0);
    for _ in 0..200 {
        let mut chaotic = Interpreter::new();
        assert_eq!(chaotic.execute_statement(statement.clone()), Ok(()));
        assert!(chaotic.variable("").is_some());
    }
}

#[test]
fn statements_without_directives_leave_the_directives_alone() {
    let mut interpreter = Interpreter::new();
    interpreter
        .execute_statement(Statement::Directive { name: "experimental".to_string() })
        .unwrap();
    let program = parse(
        "let x = 1; print(x); if (x) { y; } else { z; } loop { save(\"f\"); } \
         try { w; } catch e { print(e); } mod m { use a; } f(a) { } async g() { } await x; h(1); exit();",
    );
    for _ in 0..50 {
        for statement in program.clone() {
            let _ = interpreter.execute_statement(statement);
            assert!(interpreter.has_directive("experimental"));
            assert!(!interpreter.has_directive("disable_useless"));
        }
    }
}

#[test]
fn a_division_by_zero_in_a_try_block_is_caught() {
    let source = "try { multiply(10,0); } catch e { print(e); }";
    let mut normal = Interpreter::new();
    assert_eq!(normal.interpret(normal_program(source)), Ok(()));
    assert_eq!(
        normal.take_effects(),
        vec![Effect::Print {
            value: Value::String {
                value: "Division by zero. Congratulations, you've broken mathematics! 🎉"
                    .to_string(),
            },
        }]
    );
    let statement = parse(source).remove(0);
    let mut scoped = Interpreter::new();
    for _ in 0..50 {
        assert_eq!(
            scoped.execute_statement(under("disable_useless", statement.clone())),
            Ok(())
        );
    }
    // In chaos the try block always fails and is always caught; only the
    // catch block itself can fail.
    for _ in 0..300 {
        let mut chaotic = Interpreter::new();
        let result = chaotic.execute_statement(statement.clone());
        assert!(chaotic.variable("e").is_some());
        match result {
            Ok(()) => (),
            Err(RuntimeError::UndefinedVariable(name)) => assert_eq!(name, "e"),
            Err(RuntimeError::StylePoints) => (),
            other => panic!("unexpected {:?}", other),
        }
    }
}

#[test]
fn the_counted_draws_are_enough() {
    let source = "let x = [1, {\"a\": add(1, 2)}, promise(await(p), 3)]; \
                  if (x) { print(x); } else { loop { f(); } } \
                  try { save \"f\"; } catch e { async g() { } }";
    let program = parse(source);
    assert_eq!(count_expression_draws(100, &number(1)), 2);
    assert_eq!(
        count_expression_draws(100, &Expression::Identifier("x".to_string())),
        1
    );
    assert_eq!(
        count_expression_draws(
            100,
            &Expression::FunctionCall { name: "exit".to_string(), arguments: vec![] }
        ),
        100
    );
    assert_eq!(
        count_expression_draws(
            100,
            &Expression::FunctionCall { name: "other".to_string(), arguments: vec![number(1)] }
        ),
        1
    );
    assert_eq!(count_statement_draws(100, &Statement::Save { filename: "f".to_string() }), 1);
    assert_eq!(count_statement_draws(100, &Statement::Use { path: "f".to_string() }), 0);
    assert_eq!(count_statement_draws(7, &Statement::Print { value: number(1) }), 5);
    let literal = 2 + (2 + (2 + (2 + 2 + 1)) + (1 + 1 + 2 + 2));
    let first = literal + 1;
    let second = 1 + 1 + (1 + 3) + (1 + 1);
    let third = 1 + 1 + 1;
    assert_eq!(count_statement_draws(100, &program[0]), first);
    assert_eq!(count_statement_draws(100, &program[1]), second);
    assert_eq!(count_statement_draws(100, &program[2]), third);
    assert_eq!(count_program_draws(100, &program), 2 + first + second + third);
    assert_eq!(count_program_draws(100, &vec![]), 2);
    let exits = vec![
        Statement::Expression(Expression::FunctionCall {
            name: "exit".to_string(),
            arguments: vec![],
        });
        3
    ];
    assert_eq!(count_program_draws(u64::MAX, &exits), usize::MAX);
}

#[test]
fn a_fresh_tape_has_the_length_asked_for() {
    assert_eq!(fresh_tape(0), vec![]);
    assert_eq!(fresh_tape(17).len(), 17);
    assert_eq!(fresh_tape(TAPE_LIMIT).len(), TAPE_LIMIT);
    assert_eq!(fresh_tape(TAPE_LIMIT + 1).len(), TAPE_LIMIT);
    assert_eq!(fresh_tape(usize::MAX).len(), TAPE_LIMIT);
    let tape = fresh_tape(64);
    assert!(tape.iter().any(|draw| *draw != tape[0]));
}
