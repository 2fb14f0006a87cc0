//! Laws of the semantics: what holds of every program, every machine and
//! every tape.

use vstd::prelude::*;
use crate::ast::{BinaryOp, ExpressionView, LiteralView, StatementView};
use crate::semantics::{
    begins_normal, caught, chaotic_binary, declare, draw, eval_as_written, eval_call,
    eval_elements, eval_expression, eval_literal, eval_pairs, exec_block, exec_statement,
    exit_rounds, fits, happens, interpret, number_or_overflow, plain_binary, promise_pause,
    quotient, save, step, Machine, Outcome,
};
use crate::tape::{
    block_draws, element_draws, expression_draws, literal_draws, pair_draws, program_draws,
    statement_draws,
};
use crate::value::{RuntimeErrorView, ValueView};

verus! {

/// That `after` differs from `before` in the recorded effects at most.
pub open spec fn only_effects_added(before: Machine, after: Machine) -> bool {
    after == (Machine { effects: after.effects, ..before })
}

/// That `after` has the settings of `before`: the same mode, the same
/// probabilities and limits, the same URLs and the same belief about the
/// browser.
pub open spec fn same_settings(before: Machine, after: Machine) -> bool {
    &&& after.normal == before.normal
    &&& after.config == before.config
    &&& after.urls == before.urls
    &&& after.browser_available == before.browser_available
}

proof fn lemma_rounds_bounded(machine: Machine, round: u64, tape: Seq<u64>, cursor: usize)
    requires
        round <= machine.config.exit_iteration_limit,
    ensures
        only_effects_added(machine, exit_rounds(machine, round, tape, cursor).machine),
        exit_rounds(machine, round, tape, cursor).cursor <= cursor
            + machine.config.exit_iteration_limit - round,
        exit_rounds(machine, round, tape, cursor).result is Err,
    decreases machine.config.exit_iteration_limit - round,
{
    if round < machine.config.exit_iteration_limit {
        let asked = Machine {
            effects: machine.effects + crate::semantics::exit_round(),
            ..machine
        };
        lemma_rounds_bounded(asked, (round + 1) as u64, tape, cursor);
        lemma_rounds_bounded(asked, (round + 1) as u64, tape, step(cursor));
    }
}

#[verifier::rlimit(40)]
proof fn lemma_expression_bounded(
    machine: Machine,
    expression: ExpressionView,
    tape: Seq<u64>,
    cursor: usize,
)
    ensures
        only_effects_added(machine, eval_expression(machine, expression, tape, cursor).machine),
        eval_expression(machine, expression, tape, cursor).cursor <= cursor + expression_draws(
            machine.config.exit_iteration_limit,
            expression,
        ),
    decreases expression, 0nat,
{
    match expression {
        ExpressionView::Literal(literal) => {
            lemma_literal_bounded(machine, literal, tape, cursor);
        },
        ExpressionView::Identifier(name) => {},
        ExpressionView::BinaryOp { op, left, right } => {
            lemma_expression_bounded(machine, *left, tape, cursor);
            let first = eval_expression(machine, *left, tape, cursor);
            lemma_expression_bounded(first.machine, *right, tape, first.cursor);
        },
        ExpressionView::FunctionCall { name, arguments } => {
            if name == "exit"@ && arguments.len() == 0 {
                lemma_rounds_bounded(
                    Machine {
                        effects: machine.effects + crate::semantics::exit_prelude(),
                        ..machine
                    },
                    0,
                    tape,
                    cursor,
                );
            }
        },
        ExpressionView::Access { object, key } => {
            lemma_expression_bounded(machine, *object, tape, cursor);
            let first = eval_expression(machine, *object, tape, cursor);
            lemma_expression_bounded(first.machine, *key, tape, first.cursor);
        },
        ExpressionView::Promise { value, timeout } => {
            lemma_expression_bounded(machine, *value, tape, cursor);
            let inner = eval_expression(machine, *value, tape, cursor);
            let pause = promise_pause(inner.machine, tape, inner.cursor);
            match timeout {
                Some(limit) => {
                    lemma_expression_bounded(pause.machine, *limit, tape, pause.cursor);
                },
                None => {},
            }
        },
        ExpressionView::Await { promise } => {
            lemma_expression_bounded(machine, *promise, tape, cursor);
        },
    }
}

proof fn lemma_literal_bounded(machine: Machine, literal: LiteralView, tape: Seq<u64>, cursor: usize)
    ensures
        only_effects_added(machine, eval_literal(machine, literal, tape, cursor).machine),
        eval_literal(machine, literal, tape, cursor).cursor <= cursor + literal_draws(
            machine.config.exit_iteration_limit,
            literal,
        ),
        eval_literal(machine, literal, tape, cursor).result is Ok,
    decreases literal, 1nat,
{
    lemma_as_written_bounded(machine, literal, tape, cursor);
    lemma_as_written_bounded(machine, literal, tape, step(cursor));
}

proof fn lemma_as_written_bounded(
    machine: Machine,
    literal: LiteralView,
    tape: Seq<u64>,
    cursor: usize,
)
    ensures
        only_effects_added(machine, eval_as_written(machine, literal, tape, cursor).machine),
        eval_as_written(machine, literal, tape, cursor).cursor + 2 <= cursor + literal_draws(
            machine.config.exit_iteration_limit,
            literal,
        ),
        eval_as_written(machine, literal, tape, cursor).result is Ok,
    decreases literal, 0nat,
{
    match literal {
        LiteralView::Array(items) => {
            lemma_elements_bounded(machine, items, 0, Seq::empty(), tape, cursor);
        },
        LiteralView::Object(pairs) => {
            lemma_pairs_bounded(machine, pairs, 0, Seq::empty(), tape, cursor);
        },
        _ => {},
    }
}

proof fn lemma_elements_bounded(
    machine: Machine,
    items: Seq<ExpressionView>,
    from: nat,
    gathered: Seq<ValueView>,
    tape: Seq<u64>,
    cursor: usize,
)
    ensures
        only_effects_added(
            machine,
            eval_elements(machine, items, from, gathered, tape, cursor).machine,
        ),
        eval_elements(machine, items, from, gathered, tape, cursor).cursor <= cursor
            + element_draws(machine.config.exit_iteration_limit, items, from),
    decreases items, items.len() - from,
{
    if from < items.len() {
        lemma_expression_bounded(machine, items[from as int], tape, cursor);
        let element = eval_expression(machine, items[from as int], tape, cursor);
        lemma_elements_bounded(
            element.machine,
            items,
            from + 1,
            match element.result {
                Ok(value) => gathered.push(value),
                Err(_) => gathered,
            },
            tape,
            element.cursor,
        );
    }
}

proof fn lemma_pairs_bounded(
    machine: Machine,
    pairs: Seq<(Seq<char>, ExpressionView)>,
    from: nat,
    gathered: Seq<(Seq<char>, ValueView)>,
    tape: Seq<u64>,
    cursor: usize,
)
    ensures
        only_effects_added(machine, eval_pairs(machine, pairs, from, gathered, tape, cursor).machine),
        eval_pairs(machine, pairs, from, gathered, tape, cursor).cursor <= cursor + pair_draws(
            machine.config.exit_iteration_limit,
            pairs,
            from,
        ),
    decreases pairs, pairs.len() - from,
{
    if from < pairs.len() {
        lemma_expression_bounded(machine, pairs[from as int].1, tape, cursor);
        let element = eval_expression(machine, pairs[from as int].1, tape, cursor);
        lemma_pairs_bounded(
            element.machine,
            pairs,
            from + 1,
            match element.result {
                Ok(value) => crate::value::with_field(gathered, pairs[from as int].0, value),
                Err(_) => gathered,
            },
            tape,
            element.cursor,
        );
    }
}

#[verifier::rlimit(40)]
proof fn lemma_statement_bounded(
    machine: Machine,
    statement: StatementView,
    tape: Seq<u64>,
    cursor: usize,
)
    ensures
        same_settings(machine, exec_statement(machine, statement, tape, cursor).machine),
        exec_statement(machine, statement, tape, cursor).cursor <= cursor + statement_draws(
            machine.config.exit_iteration_limit,
            statement,
        ),
    decreases statement, 0nat,
{
    let limit = machine.config.exit_iteration_limit;
    match statement {
        StatementView::Print { value } => {
            lemma_expression_bounded(machine, value, tape, cursor);
        },
        StatementView::Let { name, value } => {
            lemma_expression_bounded(machine, value, tape, cursor);
        },
        StatementView::Expression(expression) => {
            lemma_expression_bounded(machine, expression, tape, cursor);
        },
        StatementView::If { condition, then_branch, else_branch } => {
            lemma_expression_bounded(machine, condition, tape, cursor);
            let tested = eval_expression(machine, condition, tape, cursor);
            lemma_block_bounded(tested.machine, then_branch, 0, tape, tested.cursor);
            match else_branch {
                Some(statements) => {
                    lemma_block_bounded(tested.machine, statements, 0, tape, tested.cursor);
                    lemma_block_bounded(machine, statements, 0, tape, step(cursor));
                },
                None => {},
            }
        },
        StatementView::Loop { body } => {
            if body.len() > 0 {
                lemma_statement_bounded(machine, body[0], tape, cursor);
                lemma_statement_bounded(machine, body[0], tape, step(cursor));
                assert(block_draws(limit, body, 0) >= statement_draws(limit, body[0]));
            }
        },
        StatementView::Function { name, parameters, body } => {},
        StatementView::AsyncFunction { name, parameters, body } => {},
        StatementView::TryCatch { try_block, error_var, catch_block } => {
            lemma_block_bounded(machine, try_block, 0, tape, cursor);
            let tried = exec_block(machine, try_block, 0, tape, cursor);
            match tried.result {
                Ok(_) => {},
                Err(error) => {
                    let ready = caught(tried.machine, error_var, error, tape, tried.cursor);
                    lemma_block_bounded(ready.machine, catch_block, 0, tape, ready.cursor);
                },
            }
        },
        StatementView::Module { name, body } => {
            lemma_block_bounded(machine, body, 0, tape, cursor);
        },
        StatementView::Use { path } => {},
        StatementView::Directive { name } => {},
        StatementView::Save { filename } => {},
        StatementView::Await { expression } => {
            lemma_expression_bounded(machine, expression, tape, cursor);
        },
        StatementView::Attributed { name, statement } => {
            lemma_statement_bounded(
                machine.warn_if_unknown(name).activate(name),
                *statement,
                tape,
                cursor,
            );
        },
    }
}

proof fn lemma_block_bounded(
    machine: Machine,
    statements: Seq<StatementView>,
    from: nat,
    tape: Seq<u64>,
    cursor: usize,
)
    ensures
        same_settings(machine, exec_block(machine, statements, from, tape, cursor).machine),
        exec_block(machine, statements, from, tape, cursor).cursor <= cursor + block_draws(
            machine.config.exit_iteration_limit,
            statements,
            from,
        ),
    decreases statements, statements.len() - from,
{
    if from < statements.len() {
        lemma_statement_bounded(machine, statements[from as int], tape, cursor);
        let first = exec_statement(machine, statements[from as int], tape, cursor);
        if first.result is Ok {
            lemma_block_bounded(first.machine, statements, from + 1, tape, first.cursor);
        }
    }
}

/// Evaluating an expression changes nothing of the machine but the
/// recorded effects, and moves the cursor by no more than
/// [`expression_draws`] says.
pub proof fn law_expression_draws_suffice(
    machine: Machine,
    expression: ExpressionView,
    tape: Seq<u64>,
    cursor: usize,
)
    ensures
        only_effects_added(machine, eval_expression(machine, expression, tape, cursor).machine),
        eval_expression(machine, expression, tape, cursor).cursor <= cursor + expression_draws(
            machine.config.exit_iteration_limit,
            expression,
        ),
{
    lemma_expression_bounded(machine, expression, tape, cursor);
}

/// Executing a statement leaves the settings of the machine as they
/// are, and moves the cursor by no more than [`statement_draws`] says.
pub proof fn law_statement_draws_suffice(
    machine: Machine,
    statement: StatementView,
    tape: Seq<u64>,
    cursor: usize,
)
    ensures
        same_settings(machine, exec_statement(machine, statement, tape, cursor).machine),
        exec_statement(machine, statement, tape, cursor).cursor <= cursor + statement_draws(
            machine.config.exit_iteration_limit,
            statement,
        ),
{
    lemma_statement_bounded(machine, statement, tape, cursor);
}

/// Running a program leaves the probabilities, the URLs and the belief
/// about the browser as they are, never switches deterministic mode off,
/// and moves the cursor by no more than [`program_draws`] says.
pub proof fn law_program_draws_suffice(
    machine: Machine,
    program: Seq<StatementView>,
    tape: Seq<u64>,
    cursor: usize,
)
    ensures
        ({
            let ran = interpret(machine, program, tape, cursor);
            &&& ran.machine.config == machine.config
            &&& ran.machine.urls == machine.urls
            &&& ran.machine.browser_available == machine.browser_available
            &&& machine.normal ==> ran.machine.normal
            &&& ran.cursor <= cursor + program_draws(machine.config.exit_iteration_limit, program)
        }),
{
    let limit = machine.config.exit_iteration_limit;
    lemma_block_bounded(Machine { normal: true, ..machine }, program, 1, tape, cursor);
    lemma_block_bounded(machine, program, 0, tape, cursor);
    lemma_block_bounded(machine, program, 0, tape, step(cursor));
    if program.len() > 0 {
        assert(block_draws(limit, program, 0) >= block_draws(limit, program, 1));
    }
}

/// A tape that holds as many draws as [`program_draws`] says is long
/// enough: a run from its beginning ends with the cursor within the
/// tape, so that no draw was taken past its end. Only a run on a shorter
/// tape, as a fresh tape is where the program can take more than
/// [`TAPE_LIMIT`](crate::tape::TAPE_LIMIT) draws, takes 0 for a draw.
pub proof fn law_full_tape_suffices(
    machine: Machine,
    program: Seq<StatementView>,
    tape: Seq<u64>,
)
    requires
        tape.len() >= program_draws(machine.config.exit_iteration_limit, program),
    ensures
        interpret(machine, program, tape, 0).cursor <= tape.len(),
{
    law_program_draws_suffice(machine, program, tape, 0);
}

/// Under the deterministic strategy `add` adds and `multiply`
/// multiplies: when the operands evaluate to the numbers `a` and `b`,
/// `add` gives `a + b` and `multiply` gives `a * b`, provided the result
/// fits in 64 bits. `multiply` by zero is a division by zero.
pub proof fn law_deterministic_arithmetic(
    machine: Machine,
    left: ExpressionView,
    right: ExpressionView,
    tape: Seq<u64>,
    cursor: usize,
    a: i64,
    b: i64,
)
    requires
        machine.deterministic(),
        eval_expression(machine, left, tape, cursor).result == Ok::<ValueView, RuntimeErrorView>(
            ValueView::Number { value: a },
        ),
        eval_expression(
            eval_expression(machine, left, tape, cursor).machine,
            right,
            tape,
            eval_expression(machine, left, tape, cursor).cursor,
        ).result == Ok::<ValueView, RuntimeErrorView>(ValueView::Number { value: b }),
    ensures
        fits(a + b) ==> eval_expression(
            machine,
            ExpressionView::BinaryOp { op: BinaryOp::Add, left: Box::new(left), right: Box::new(right) },
            tape,
            cursor,
        ).result == Ok::<ValueView, RuntimeErrorView>(ValueView::Number { value: (a + b) as i64 }),
        b != 0 && fits(a * b) ==> eval_expression(
            machine,
            ExpressionView::BinaryOp {
                op: BinaryOp::Multiply,
                left: Box::new(left),
                right: Box::new(right),
            },
            tape,
            cursor,
        ).result == Ok::<ValueView, RuntimeErrorView>(ValueView::Number { value: (a * b) as i64 }),
        b == 0 ==> eval_expression(
            machine,
            ExpressionView::BinaryOp {
                op: BinaryOp::Multiply,
                left: Box::new(left),
                right: Box::new(right),
            },
            tape,
            cursor,
        ).result == Err::<ValueView, RuntimeErrorView>(RuntimeErrorView::DivisionByZero),
{
    lemma_expression_bounded(machine, left, tape, cursor);
    let first = eval_expression(machine, left, tape, cursor);
    lemma_expression_bounded(first.machine, right, tape, first.cursor);
}

/// Under the chaotic strategy `add` never adds, and `multiply` never
/// multiplies: when the operands evaluate to the numbers `a` and `b`,
/// `add` gives `a - b` or `a * b`, and `multiply` gives `a / b`, rounded
/// towards zero, or `a + b`, whichever the draw chooses and provided the
/// result fits in 64 bits. So `add` gives `a + b` only where `a - b` or
/// `a * b` is the same number. `multiply` by zero is a division by zero.
pub proof fn law_chaotic_arithmetic(
    machine: Machine,
    left: ExpressionView,
    right: ExpressionView,
    tape: Seq<u64>,
    cursor: usize,
    a: i64,
    b: i64,
)
    requires
        !machine.deterministic(),
        eval_expression(machine, left, tape, cursor).result == Ok::<ValueView, RuntimeErrorView>(
            ValueView::Number { value: a },
        ),
        eval_expression(
            eval_expression(machine, left, tape, cursor).machine,
            right,
            tape,
            eval_expression(machine, left, tape, cursor).cursor,
        ).result == Ok::<ValueView, RuntimeErrorView>(ValueView::Number { value: b }),
    ensures
        ({
            let sum = eval_expression(
                machine,
                ExpressionView::BinaryOp {
                    op: BinaryOp::Add,
                    left: Box::new(left),
                    right: Box::new(right),
                },
                tape,
                cursor,
            ).result;
            let product = eval_expression(
                machine,
                ExpressionView::BinaryOp {
                    op: BinaryOp::Multiply,
                    left: Box::new(left),
                    right: Box::new(right),
                },
                tape,
                cursor,
            ).result;
            &&& sum == number_or_overflow(a - b) || sum == number_or_overflow(a * b)
            &&& fits(a + b) && sum == Ok::<ValueView, RuntimeErrorView>(
                ValueView::Number { value: (a + b) as i64 },
            ) ==> b == 0 || a * b == a + b
            &&& b == 0 ==> product == Err::<ValueView, RuntimeErrorView>(
                RuntimeErrorView::DivisionByZero,
            )
            &&& b != 0 ==> product == number_or_overflow(quotient(a as int, b as int)) || product
                == number_or_overflow(a + b)
        }),
{
    lemma_expression_bounded(machine, left, tape, cursor);
    let first = eval_expression(machine, left, tape, cursor);
    lemma_expression_bounded(first.machine, right, tape, first.cursor);
}

/// A loop runs the first statement of its body at most, under both
/// strategies: two loops whose bodies begin with the same statement do
/// the same, whatever follows that statement.
pub proof fn law_loop_runs_one_statement(
    machine: Machine,
    body: Seq<StatementView>,
    other: Seq<StatementView>,
    tape: Seq<u64>,
    cursor: usize,
)
    requires
        body.len() > 0,
        other.len() > 0,
        body[0] == other[0],
    ensures
        exec_statement(machine, StatementView::Loop { body }, tape, cursor) == exec_statement(
            machine,
            StatementView::Loop { body: other },
            tape,
            cursor,
        ),
{
    law_loop_is_first_statement(machine, body, tape, cursor);
    law_loop_is_first_statement(machine, other, tape, cursor);
}

/// What a loop does is what the first statement of its body does, if
/// there is one and the loop does not fail before it: no second
/// statement runs, and no statement runs twice.
pub proof fn law_loop_is_first_statement(
    machine: Machine,
    body: Seq<StatementView>,
    tape: Seq<u64>,
    cursor: usize,
)
    requires
        body.len() > 0,
    ensures
        exec_statement(machine, StatementView::Loop { body }, tape, cursor) == (if machine.deterministic() {
            exec_statement(machine, body[0], tape, cursor)
        } else if happens(machine.config.loop_failure, draw(tape, cursor)) {
            Outcome {
                result: Err(RuntimeErrorView::TaskFailedSuccessfully),
                machine,
                cursor: step(cursor),
            }
        } else {
            exec_statement(machine, body[0], tape, step(cursor))
        }),
{
}

/// A directive scopes one statement: while the statement under it runs
/// the directive is active, and once the statement has ended, whether it
/// succeeded or failed, the directive is not active.
pub proof fn law_directive_scope(
    machine: Machine,
    name: Seq<char>,
    statement: StatementView,
    tape: Seq<u64>,
    cursor: usize,
)
    ensures
        ({
            let during = machine.warn_if_unknown(name).activate(name);
            let inner = exec_statement(during, statement, tape, cursor);
            let whole = exec_statement(
                machine,
                StatementView::Attributed { name, statement: Box::new(statement) },
                tape,
                cursor,
            );
            &&& during.directives.contains(name)
            &&& whole.result == inner.result
            &&& whole.cursor == inner.cursor
            &&& whole.machine == inner.machine.deactivate(name)
            &&& !whole.machine.directives.contains(name)
        }),
{
}

/// That a statement runs no directive: it is neither a directive nor a
/// statement under one, and neither is any statement that it may run.
/// The bodies of declared functions never run, and of the body of a loop
/// only the first statement does.
pub open spec fn runs_no_directive(statement: StatementView) -> bool
    decreases statement, 0nat,
{
    match statement {
        StatementView::Directive { .. } => false,
        StatementView::Attributed { .. } => false,
        StatementView::If { condition, then_branch, else_branch } => block_runs_no_directive(
            then_branch,
            0,
        ) && match else_branch {
            Some(statements) => block_runs_no_directive(statements, 0),
            None => true,
        },
        StatementView::Loop { body } => body.len() == 0 || runs_no_directive(body[0]),
        StatementView::TryCatch { try_block, error_var, catch_block } => block_runs_no_directive(
            try_block,
            0,
        ) && block_runs_no_directive(catch_block, 0),
        StatementView::Module { name, body } => block_runs_no_directive(body, 0),
        _ => true,
    }
}

/// That the statements of a block from position `from` on run no
/// directive.
pub open spec fn block_runs_no_directive(statements: Seq<StatementView>, from: nat) -> bool
    decreases statements, statements.len() - from,
{
    from >= statements.len() || (runs_no_directive(statements[from as int])
        && block_runs_no_directive(statements, from + 1))
}

proof fn lemma_statement_keeps_directives(
    machine: Machine,
    statement: StatementView,
    tape: Seq<u64>,
    cursor: usize,
)
    requires
        runs_no_directive(statement),
    ensures
        exec_statement(machine, statement, tape, cursor).machine.directives == machine.directives,
    decreases statement, 0nat,
{
    match statement {
        StatementView::Print { value } => {
            lemma_expression_bounded(machine, value, tape, cursor);
        },
        StatementView::Let { name, value } => {
            lemma_expression_bounded(machine, value, tape, cursor);
        },
        StatementView::Expression(expression) => {
            lemma_expression_bounded(machine, expression, tape, cursor);
        },
        StatementView::If { condition, then_branch, else_branch } => {
            lemma_expression_bounded(machine, condition, tape, cursor);
            let tested = eval_expression(machine, condition, tape, cursor);
            lemma_block_keeps_directives(tested.machine, then_branch, 0, tape, tested.cursor);
            match else_branch {
                Some(statements) => {
                    lemma_block_keeps_directives(
                        tested.machine,
                        statements,
                        0,
                        tape,
                        tested.cursor,
                    );
                    lemma_block_keeps_directives(machine, statements, 0, tape, step(cursor));
                },
                None => {},
            }
        },
        StatementView::Loop { body } => {
            if body.len() > 0 {
                lemma_statement_keeps_directives(machine, body[0], tape, cursor);
                lemma_statement_keeps_directives(machine, body[0], tape, step(cursor));
            }
        },
        StatementView::TryCatch { try_block, error_var, catch_block } => {
            lemma_block_keeps_directives(machine, try_block, 0, tape, cursor);
            let tried = exec_block(machine, try_block, 0, tape, cursor);
            match tried.result {
                Ok(_) => {},
                Err(error) => {
                    let ready = caught(tried.machine, error_var, error, tape, tried.cursor);
                    lemma_block_keeps_directives(
                        ready.machine,
                        catch_block,
                        0,
                        tape,
                        ready.cursor,
                    );
                },
            }
        },
        StatementView::Module { name, body } => {
            lemma_block_keeps_directives(machine, body, 0, tape, cursor);
        },
        StatementView::Await { expression } => {
            lemma_expression_bounded(machine, expression, tape, cursor);
        },
        _ => {},
    }
}

proof fn lemma_block_keeps_directives(
    machine: Machine,
    statements: Seq<StatementView>,
    from: nat,
    tape: Seq<u64>,
    cursor: usize,
)
    requires
        block_runs_no_directive(statements, from),
    ensures
        exec_block(machine, statements, from, tape, cursor).machine.directives
            == machine.directives,
    decreases statements, statements.len() - from,
{
    if from < statements.len() {
        lemma_statement_keeps_directives(machine, statements[from as int], tape, cursor);
        let first = exec_statement(machine, statements[from as int], tape, cursor);
        if first.result is Ok {
            lemma_block_keeps_directives(first.machine, statements, from + 1, tape, first.cursor);
        }
    }
}

/// A statement that runs no directive leaves the active directives as
/// they are, whether it succeeds or fails; and so does an expression.
/// Together with [`law_directive_scope`]: a directive is active exactly
/// from a bare directive statement on, or while the statement under it
/// runs.
pub proof fn law_directives_stay(
    machine: Machine,
    statement: StatementView,
    expression: ExpressionView,
    tape: Seq<u64>,
    cursor: usize,
)
    ensures
        runs_no_directive(statement) ==> exec_statement(
            machine,
            statement,
            tape,
            cursor,
        ).machine.directives == machine.directives,
        eval_expression(machine, expression, tape, cursor).machine.directives
            == machine.directives,
{
    if runs_no_directive(statement) {
        lemma_statement_keeps_directives(machine, statement, tape, cursor);
    }
    lemma_expression_bounded(machine, expression, tape, cursor);
}

/// That two outcomes have the same result and the same machine.
pub open spec fn same_end<T>(first: Outcome<T>, second: Outcome<T>) -> bool {
    first.result == second.result && first.machine == second.machine
}

proof fn lemma_normal_rounds(
    machine: Machine,
    round: u64,
    tape: Seq<u64>,
    cursor: usize,
    other_tape: Seq<u64>,
    other_cursor: usize,
)
    requires
        machine.normal,
        round <= machine.config.exit_iteration_limit,
    ensures
        same_end(
            exit_rounds(machine, round, tape, cursor),
            exit_rounds(machine, round, other_tape, other_cursor),
        ),
        exit_rounds(machine, round, tape, cursor).cursor == cursor,
        exit_rounds(machine, round, other_tape, other_cursor).cursor == other_cursor,
        exit_rounds(machine, round, tape, cursor).machine.normal,
    decreases machine.config.exit_iteration_limit - round,
{
    if round < machine.config.exit_iteration_limit {
        let asked = Machine {
            effects: machine.effects + crate::semantics::exit_round(),
            ..machine
        };
        lemma_normal_rounds(asked, (round + 1) as u64, tape, cursor, other_tape, other_cursor);
    }
}

#[verifier::rlimit(40)]
proof fn lemma_normal_expression(
    machine: Machine,
    expression: ExpressionView,
    tape: Seq<u64>,
    cursor: usize,
    other_tape: Seq<u64>,
    other_cursor: usize,
)
    requires
        machine.normal,
    ensures
        same_end(
            eval_expression(machine, expression, tape, cursor),
            eval_expression(machine, expression, other_tape, other_cursor),
        ),
        eval_expression(machine, expression, tape, cursor).cursor == cursor,
        eval_expression(machine, expression, other_tape, other_cursor).cursor == other_cursor,
        eval_expression(machine, expression, tape, cursor).machine.normal,
    decreases expression, 0nat,
{
    match expression {
        ExpressionView::Literal(literal) => {
            lemma_normal_as_written(machine, literal, tape, cursor, other_tape, other_cursor);
        },
        ExpressionView::Identifier(name) => {},
        ExpressionView::BinaryOp { op, left, right } => {
            lemma_normal_expression(machine, *left, tape, cursor, other_tape, other_cursor);
            let first = eval_expression(machine, *left, tape, cursor);
            lemma_normal_expression(first.machine, *right, tape, cursor, other_tape, other_cursor);
        },
        ExpressionView::FunctionCall { name, arguments } => {
            if name == "exit"@ && arguments.len() == 0 {
                lemma_normal_rounds(
                    Machine {
                        effects: machine.effects + crate::semantics::exit_prelude(),
                        ..machine
                    },
                    0,
                    tape,
                    cursor,
                    other_tape,
                    other_cursor,
                );
            }
        },
        ExpressionView::Access { object, key } => {
            lemma_normal_expression(machine, *object, tape, cursor, other_tape, other_cursor);
            let first = eval_expression(machine, *object, tape, cursor);
            lemma_normal_expression(first.machine, *key, tape, cursor, other_tape, other_cursor);
        },
        ExpressionView::Promise { value, timeout } => {
            lemma_normal_expression(machine, *value, tape, cursor, other_tape, other_cursor);
            let inner = eval_expression(machine, *value, tape, cursor);
            let pause = promise_pause(inner.machine, tape, cursor);
            match timeout {
                Some(limit) => {
                    lemma_normal_expression(
                        pause.machine,
                        *limit,
                        tape,
                        cursor,
                        other_tape,
                        other_cursor,
                    );
                },
                None => {},
            }
        },
        ExpressionView::Await { promise } => {
            lemma_normal_expression(machine, *promise, tape, cursor, other_tape, other_cursor);
        },
    }
}

proof fn lemma_normal_as_written(
    machine: Machine,
    literal: LiteralView,
    tape: Seq<u64>,
    cursor: usize,
    other_tape: Seq<u64>,
    other_cursor: usize,
)
    requires
        machine.normal,
    ensures
        same_end(
            eval_literal(machine, literal, tape, cursor),
            eval_literal(machine, literal, other_tape, other_cursor),
        ),
        eval_literal(machine, literal, tape, cursor).cursor == cursor,
        eval_literal(machine, literal, other_tape, other_cursor).cursor == other_cursor,
        eval_literal(machine, literal, tape, cursor).machine.normal,
        eval_literal(machine, literal, tape, cursor) == eval_as_written(
            machine,
            literal,
            tape,
            cursor,
        ),
    decreases literal, 0nat,
{
    match literal {
        LiteralView::Array(items) => {
            lemma_normal_elements(
                machine,
                items,
                0,
                Seq::empty(),
                tape,
                cursor,
                other_tape,
                other_cursor,
            );
        },
        LiteralView::Object(pairs) => {
            lemma_normal_pairs(
                machine,
                pairs,
                0,
                Seq::empty(),
                tape,
                cursor,
                other_tape,
                other_cursor,
            );
        },
        _ => {},
    }
}

proof fn lemma_normal_elements(
    machine: Machine,
    items: Seq<ExpressionView>,
    from: nat,
    gathered: Seq<ValueView>,
    tape: Seq<u64>,
    cursor: usize,
    other_tape: Seq<u64>,
    other_cursor: usize,
)
    requires
        machine.normal,
    ensures
        ({
            let first = eval_elements(machine, items, from, gathered, tape, cursor);
            let second = eval_elements(machine, items, from, gathered, other_tape, other_cursor);
            &&& first.value == second.value
            &&& first.machine == second.machine
            &&& first.machine.normal
            &&& first.cursor == cursor
            &&& second.cursor == other_cursor
        }),
    decreases items, items.len() - from,
{
    if from < items.len() {
        lemma_normal_expression(machine, items[from as int], tape, cursor, other_tape, other_cursor);
        let element = eval_expression(machine, items[from as int], tape, cursor);
        lemma_normal_elements(
            element.machine,
            items,
            from + 1,
            match element.result {
                Ok(value) => gathered.push(value),
                Err(_) => gathered,
            },
            tape,
            cursor,
            other_tape,
            other_cursor,
        );
    }
}

proof fn lemma_normal_pairs(
    machine: Machine,
    pairs: Seq<(Seq<char>, ExpressionView)>,
    from: nat,
    gathered: Seq<(Seq<char>, ValueView)>,
    tape: Seq<u64>,
    cursor: usize,
    other_tape: Seq<u64>,
    other_cursor: usize,
)
    requires
        machine.normal,
    ensures
        ({
            let first = eval_pairs(machine, pairs, from, gathered, tape, cursor);
            let second = eval_pairs(machine, pairs, from, gathered, other_tape, other_cursor);
            &&& first.value == second.value
            &&& first.machine == second.machine
            &&& first.machine.normal
            &&& first.cursor == cursor
            &&& second.cursor == other_cursor
        }),
    decreases pairs, pairs.len() - from,
{
    if from < pairs.len() {
        lemma_normal_expression(
            machine,
            pairs[from as int].1,
            tape,
            cursor,
            other_tape,
            other_cursor,
        );
        let element = eval_expression(machine, pairs[from as int].1, tape, cursor);
        lemma_normal_pairs(
            element.machine,
            pairs,
            from + 1,
            match element.result {
                Ok(value) => crate::value::with_field(gathered, pairs[from as int].0, value),
                Err(_) => gathered,
            },
            tape,
            cursor,
            other_tape,
            other_cursor,
        );
    }
}

#[verifier::rlimit(40)]
proof fn lemma_normal_statement(
    machine: Machine,
    statement: StatementView,
    tape: Seq<u64>,
    cursor: usize,
    other_tape: Seq<u64>,
    other_cursor: usize,
)
    requires
        machine.normal,
    ensures
        same_end(
            exec_statement(machine, statement, tape, cursor),
            exec_statement(machine, statement, other_tape, other_cursor),
        ),
        exec_statement(machine, statement, tape, cursor).cursor == cursor,
        exec_statement(machine, statement, other_tape, other_cursor).cursor == other_cursor,
        exec_statement(machine, statement, tape, cursor).machine.normal,
    decreases statement, 0nat,
{
    match statement {
        StatementView::Print { value } => {
            lemma_normal_expression(machine, value, tape, cursor, other_tape, other_cursor);
        },
        StatementView::Let { name, value } => {
            lemma_normal_expression(machine, value, tape, cursor, other_tape, other_cursor);
        },
        StatementView::Expression(expression) => {
            lemma_normal_expression(machine, expression, tape, cursor, other_tape, other_cursor);
        },
        StatementView::If { condition, then_branch, else_branch } => {
            lemma_normal_expression(machine, condition, tape, cursor, other_tape, other_cursor);
            let tested = eval_expression(machine, condition, tape, cursor);
            lemma_normal_block(tested.machine, then_branch, 0, tape, cursor, other_tape, other_cursor);
            match else_branch {
                Some(statements) => {
                    lemma_normal_block(
                        tested.machine,
                        statements,
                        0,
                        tape,
                        cursor,
                        other_tape,
                        other_cursor,
                    );
                },
                None => {},
            }
        },
        StatementView::Loop { body } => {
            if body.len() > 0 {
                lemma_normal_statement(machine, body[0], tape, cursor, other_tape, other_cursor);
            }
        },
        StatementView::Function { name, parameters, body } => {},
        StatementView::AsyncFunction { name, parameters, body } => {},
        StatementView::TryCatch { try_block, error_var, catch_block } => {
            lemma_normal_block(machine, try_block, 0, tape, cursor, other_tape, other_cursor);
            let tried = exec_block(machine, try_block, 0, tape, cursor);
            match tried.result {
                Ok(_) => {},
                Err(error) => {
                    let ready = caught(tried.machine, error_var, error, tape, cursor);
                    lemma_normal_block(
                        ready.machine,
                        catch_block,
                        0,
                        tape,
                        cursor,
                        other_tape,
                        other_cursor,
                    );
                },
            }
        },
        StatementView::Module { name, body } => {
            lemma_normal_block(machine, body, 0, tape, cursor, other_tape, other_cursor);
        },
        StatementView::Use { path } => {},
        StatementView::Directive { name } => {},
        StatementView::Save { filename } => {},
        StatementView::Await { expression } => {
            lemma_normal_expression(machine, expression, tape, cursor, other_tape, other_cursor);
        },
        StatementView::Attributed { name, statement } => {
            lemma_normal_statement(
                machine.warn_if_unknown(name).activate(name),
                *statement,
                tape,
                cursor,
                other_tape,
                other_cursor,
            );
        },
    }
}

proof fn lemma_normal_block(
    machine: Machine,
    statements: Seq<StatementView>,
    from: nat,
    tape: Seq<u64>,
    cursor: usize,
    other_tape: Seq<u64>,
    other_cursor: usize,
)
    requires
        machine.normal,
    ensures
        same_end(
            exec_block(machine, statements, from, tape, cursor),
            exec_block(machine, statements, from, other_tape, other_cursor),
        ),
        exec_block(machine, statements, from, tape, cursor).cursor == cursor,
        exec_block(machine, statements, from, other_tape, other_cursor).cursor == other_cursor,
        exec_block(machine, statements, from, tape, cursor).machine.normal,
    decreases statements, statements.len() - from,
{
    if from < statements.len() {
        lemma_normal_statement(
            machine,
            statements[from as int],
            tape,
            cursor,
            other_tape,
            other_cursor,
        );
        let first = exec_statement(machine, statements[from as int], tape, cursor);
        if first.result is Ok {
            lemma_normal_block(
                first.machine,
                statements,
                from + 1,
                tape,
                cursor,
                other_tape,
                other_cursor,
            );
        }
    }
}

/// Once deterministic mode is on, a statement takes no draw, does the
/// same whatever the tape holds, and leaves deterministic mode on.
pub proof fn law_normal_statement(
    machine: Machine,
    statement: StatementView,
    tape: Seq<u64>,
    cursor: usize,
    other_tape: Seq<u64>,
    other_cursor: usize,
)
    requires
        machine.normal,
    ensures
        same_end(
            exec_statement(machine, statement, tape, cursor),
            exec_statement(machine, statement, other_tape, other_cursor),
        ),
        exec_statement(machine, statement, tape, cursor).cursor == cursor,
        exec_statement(machine, statement, tape, cursor).machine.normal,
{
    lemma_normal_statement(machine, statement, tape, cursor, other_tape, other_cursor);
}

/// Once deterministic mode is on, an expression takes no draw and has
/// the same value whatever the tape holds.
pub proof fn law_normal_expression(
    machine: Machine,
    expression: ExpressionView,
    tape: Seq<u64>,
    cursor: usize,
    other_tape: Seq<u64>,
    other_cursor: usize,
)
    requires
        machine.normal,
    ensures
        same_end(
            eval_expression(machine, expression, tape, cursor),
            eval_expression(machine, expression, other_tape, other_cursor),
        ),
        eval_expression(machine, expression, tape, cursor).cursor == cursor,
{
    lemma_normal_expression(machine, expression, tape, cursor, other_tape, other_cursor);
}

/// A program that begins with the directive `disable_all_useless_shit`
/// runs the statements after the directive in deterministic mode, and
/// never the directive itself; it takes no draw, does the same whatever
/// the tape holds, and ends in deterministic mode.
pub proof fn law_normal_program(
    machine: Machine,
    program: Seq<StatementView>,
    tape: Seq<u64>,
    cursor: usize,
    other_tape: Seq<u64>,
    other_cursor: usize,
)
    requires
        begins_normal(program),
    ensures
        interpret(machine, program, tape, cursor) == exec_block(
            Machine { normal: true, ..machine },
            program,
            1,
            tape,
            cursor,
        ),
        same_end(
            interpret(machine, program, tape, cursor),
            interpret(machine, program, other_tape, other_cursor),
        ),
        interpret(machine, program, tape, cursor).cursor == cursor,
        interpret(machine, program, tape, cursor).machine.normal,
{
    lemma_normal_block(
        Machine { normal: true, ..machine },
        program,
        1,
        tape,
        cursor,
        other_tape,
        other_cursor,
    );
}

/// An error of a try-block never gets past its catch: where the
/// try-block succeeds, try/catch is the try-block; where it fails, the
/// error's text is bound and try/catch is the catch-block from there on.
/// So try/catch fails only where its catch-block fails.
pub proof fn law_try_catch_recovers(
    machine: Machine,
    try_block: Seq<StatementView>,
    error_var: Seq<char>,
    catch_block: Seq<StatementView>,
    tape: Seq<u64>,
    cursor: usize,
)
    ensures
        ({
            let whole = exec_statement(
                machine,
                StatementView::TryCatch { try_block, error_var, catch_block },
                tape,
                cursor,
            );
            let tried = exec_block(machine, try_block, 0, tape, cursor);
            match tried.result {
                Ok(_) => whole == tried,
                Err(error) => {
                    let ready = caught(tried.machine, error_var, error, tape, tried.cursor);
                    &&& ready.result is Ok
                    &&& ready.machine.variables.contains_key(error_var)
                    &&& whole == exec_block(ready.machine, catch_block, 0, tape, ready.cursor)
                },
            }
        }),
        catch_block.len() == 0 ==> exec_statement(
            machine,
            StatementView::TryCatch { try_block, error_var, catch_block },
            tape,
            cursor,
        ).result is Ok,
{
}

/// `save` never succeeds, under either strategy and whatever the draws.
pub proof fn law_save_fails(machine: Machine, filename: Seq<char>, tape: Seq<u64>, cursor: usize)
    ensures
        exec_statement(machine, StatementView::Save { filename }, tape, cursor).result is Err,
        exec_statement(machine, StatementView::Save { filename }, tape, cursor).machine == machine,
{
}

} // verus!
