//! The tape of random draws.
//!
//! The interpreter takes all its randomness from a tape that is drawn
//! before a program, a statement or an expression runs. This module says
//! how many draws a piece of syntax can take at most, counts them, and
//! draws a tape of that length from the system's random number generator.

use vstd::prelude::*;
use crate::ast::{
    element_models, expression_models, pair_models, statement_models, Expression,
    ExpressionView, Literal, LiteralView, Statement, StatementView,
};
use crate::value::same_text;

verus! {

/// One random number: `rand::random::<u64>()`, which asks the generator
/// of the current thread for a uniformly distributed value. Nothing is
/// promised of the number.
#[verifier::external_body]
fn system_draw() -> (number: u64) {
    rand::random::<u64>()
}

/// The longest tape that is ever drawn. A run that can take more draws
/// than this gets a tape of this length all the same; every draw after
/// the end of the tape is 0, so from there on every event with a
/// probability above 0 happens, and every choice falls on the first of
/// its alternatives.
pub const TAPE_LIMIT: usize = 1_048_576;

/// The length of the tape that is drawn where `wanted` draws can be
/// taken: `wanted`, but no more than [`TAPE_LIMIT`].
pub open spec fn tape_length(wanted: nat) -> nat {
    if wanted > TAPE_LIMIT {
        TAPE_LIMIT as nat
    } else {
        wanted
    }
}

/// The most draws that evaluating an expression can take, when `exit()`
/// gives up after `limit` rounds.
pub open spec fn expression_draws(limit: u64, expression: ExpressionView) -> nat
    decreases expression, 0nat,
{
    match expression {
        ExpressionView::Literal(literal) => literal_draws(limit, literal),
        ExpressionView::Identifier(_) => 1,
        ExpressionView::BinaryOp { op, left, right } => expression_draws(limit, *left)
            + expression_draws(limit, *right) + 1,
        ExpressionView::FunctionCall { name, arguments } => if name == "exit"@ {
            limit as nat
        } else {
            1
        },
        ExpressionView::Access { object, key } => expression_draws(limit, *object)
            + expression_draws(limit, *key) + 3,
        ExpressionView::Promise { value, timeout } => expression_draws(limit, *value) + 2
            + match timeout {
            Some(bound) => expression_draws(limit, *bound),
            None => 0,
        },
        ExpressionView::Await { promise } => expression_draws(limit, *promise) + 1,
    }
}

/// The most draws that evaluating a literal can take.
pub open spec fn literal_draws(limit: u64, literal: LiteralView) -> nat
    decreases literal, 0nat,
{
    match literal {
        LiteralView::Array(items) => 2 + element_draws(limit, items, 0),
        LiteralView::Object(pairs) => 2 + pair_draws(limit, pairs, 0),
        _ => 2,
    }
}

/// The most draws that the elements of an array literal can take from
/// position `from` on.
pub open spec fn element_draws(limit: u64, items: Seq<ExpressionView>, from: nat) -> nat
    decreases items, items.len() - from,
{
    if from >= items.len() {
        0
    } else {
        expression_draws(limit, items[from as int]) + element_draws(limit, items, from + 1)
    }
}

/// The most draws that the values of an object literal can take from
/// position `from` on.
pub open spec fn pair_draws(limit: u64, pairs: Seq<(Seq<char>, ExpressionView)>, from: nat) -> nat
    decreases pairs, pairs.len() - from,
{
    if from >= pairs.len() {
        0
    } else {
        expression_draws(limit, pairs[from as int].1) + pair_draws(limit, pairs, from + 1)
    }
}

/// The most draws that executing a statement can take.
pub open spec fn statement_draws(limit: u64, statement: StatementView) -> nat
    decreases statement, 0nat,
{
    match statement {
        StatementView::Print { value } => expression_draws(limit, value) + 3,
        StatementView::Let { name, value } => expression_draws(limit, value) + 1,
        StatementView::Expression(expression) => expression_draws(limit, expression),
        StatementView::If { condition, then_branch, else_branch } => expression_draws(
            limit,
            condition,
        ) + 1 + block_draws(limit, then_branch, 0) + match else_branch {
            Some(statements) => block_draws(limit, statements, 0),
            None => 0,
        },
        StatementView::Loop { body } => 1 + block_draws(limit, body, 0),
        StatementView::Function { .. } => 0,
        StatementView::AsyncFunction { .. } => 1,
        StatementView::TryCatch { try_block, error_var, catch_block } => block_draws(
            limit,
            try_block,
            0,
        ) + 1 + block_draws(limit, catch_block, 0),
        StatementView::Module { name, body } => block_draws(limit, body, 0),
        StatementView::Use { .. } => 0,
        StatementView::Directive { .. } => 0,
        StatementView::Save { .. } => 1,
        StatementView::Await { expression } => expression_draws(limit, expression) + 1,
        StatementView::Attributed { name, statement } => statement_draws(limit, *statement),
    }
}

/// The most draws that the statements of a block can take from position
/// `from` on.
pub open spec fn block_draws(limit: u64, statements: Seq<StatementView>, from: nat) -> nat
    decreases statements, statements.len() - from,
{
    if from >= statements.len() {
        0
    } else {
        statement_draws(limit, statements[from as int]) + block_draws(limit, statements, from + 1)
    }
}

/// The most draws that running a program can take.
pub open spec fn program_draws(limit: u64, program: Seq<StatementView>) -> nat {
    2 + block_draws(limit, program, 0)
}

/// A count as it fits in a `usize`: the count itself, or the largest
/// `usize` where it is larger.
pub open spec fn capped(count: nat) -> usize {
    if count > usize::MAX {
        usize::MAX
    } else {
        count as usize
    }
}

fn plus(left: usize, right: usize) -> (sum: usize)
    ensures
        sum == capped((left + right) as nat),
{
    if left > usize::MAX - right {
        usize::MAX
    } else {
        left + right
    }
}

fn limit_count(limit: u64) -> (count: usize)
    ensures
        count == capped(limit as nat),
{
    if limit > usize::MAX as u64 {
        usize::MAX
    } else {
        limit as usize
    }
}

/// Counts the draws that evaluating an expression can take at most.
pub fn count_expression_draws(limit: u64, expression: &Expression) -> (count: usize)
    ensures
        count == capped(expression_draws(limit, expression@)),
    decreases expression, 0nat,
{
    match expression {
        Expression::Literal(literal) => count_literal_draws(limit, literal),
        Expression::Identifier(_) => 1,
        Expression::BinaryOp { op, left, right } => plus(
            plus(count_expression_draws(limit, left), count_expression_draws(limit, right)),
            1,
        ),
        Expression::FunctionCall { name, arguments } => if same_text(name, "exit") {
            limit_count(limit)
        } else {
            1
        },
        Expression::Access { object, key } => plus(
            plus(count_expression_draws(limit, object), count_expression_draws(limit, key)),
            3,
        ),
        Expression::Promise { value, timeout } => {
            let inner = plus(count_expression_draws(limit, value), 2);
            match timeout {
                Some(bound) => plus(inner, count_expression_draws(limit, bound)),
                None => inner,
            }
        },
        Expression::Await { promise } => plus(count_expression_draws(limit, promise), 1),
    }
}

#[verifier::loop_isolation(false)]
fn count_literal_draws(limit: u64, literal: &Literal) -> (count: usize)
    ensures
        count == capped(literal_draws(limit, literal@)),
    decreases literal, 0nat,
{
    match literal {
        Literal::Array(items) => {
            let ghost models = element_models(items@);
            let mut total: usize = 0;
            let mut i: usize = items.len();
            while i > 0
                invariant
                    i <= items.len(),
                    models.len() == items.len(),
                    total == capped(element_draws(limit, models, i as nat)),
                decreases i,
            {
                i = i - 1;
                assert(models[i as int] == (*items@[i as int]).model());
                total = plus(count_expression_draws(limit, &items[i]), total);
            }
            plus(2, total)
        },
        Literal::Object(pairs) => {
            let ghost models = pair_models(pairs@);
            let mut total: usize = 0;
            let mut i: usize = pairs.len();
            while i > 0
                invariant
                    i <= pairs.len(),
                    models.len() == pairs.len(),
                    total == capped(pair_draws(limit, models, i as nat)),
                decreases i,
            {
                i = i - 1;
                assert(models[i as int].1 == (*pairs@[i as int].1).model());
                total = plus(count_expression_draws(limit, &pairs[i].1), total);
            }
            plus(2, total)
        },
        _ => 2,
    }
}

/// Counts the draws that executing a statement can take at most.
pub fn count_statement_draws(limit: u64, statement: &Statement) -> (count: usize)
    ensures
        count == capped(statement_draws(limit, statement@)),
    decreases statement, 0nat,
{
    match statement {
        Statement::Print { value } => plus(count_expression_draws(limit, value), 3),
        Statement::Let { name, value } => plus(count_expression_draws(limit, value), 1),
        Statement::Expression(expression) => count_expression_draws(limit, expression),
        Statement::If { condition, then_branch, else_branch } => {
            let first = plus(
                plus(count_expression_draws(limit, condition), 1),
                count_block_draws(limit, then_branch, 0),
            );
            match else_branch {
                Some(statements) => plus(first, count_block_draws(limit, statements, 0)),
                None => first,
            }
        },
        Statement::Loop { body } => plus(1, count_block_draws(limit, body, 0)),
        Statement::Function { .. } => 0,
        Statement::AsyncFunction { .. } => 1,
        Statement::TryCatch { try_block, error_var, catch_block } => plus(
            plus(count_block_draws(limit, try_block, 0), 1),
            count_block_draws(limit, catch_block, 0),
        ),
        Statement::Module { name, body } => count_block_draws(limit, body, 0),
        Statement::Use { .. } => 0,
        Statement::Directive { .. } => 0,
        Statement::Save { .. } => 1,
        Statement::Await { expression } => plus(count_expression_draws(limit, expression), 1),
        Statement::Attributed { name, statement } => count_statement_draws(limit, statement),
    }
}

/// Counts the draws that the statements of a block can take at most from
/// position `from` on.
#[verifier::loop_isolation(false)]
pub fn count_block_draws(limit: u64, statements: &Vec<Statement>, from: usize) -> (count: usize)
    ensures
        count == capped(block_draws(limit, statement_models(statements@), from as nat)),
    decreases statements, 0nat,
{
    let ghost models = statement_models(statements@);
    let mut total: usize = 0;
    let mut i: usize = statements.len();
    while i > from
        invariant
            i <= statements.len(),
            i >= from || i == statements.len(),
            models.len() == statements.len(),
            total == capped(block_draws(limit, models, i as nat)),
        decreases i,
    {
        i = i - 1;
        assert(models[i as int] == statements@[i as int].model());
        total = plus(count_statement_draws(limit, &statements[i]), total);
    }
    total
}

/// Counts the draws that running a program can take at most.
pub fn count_program_draws(limit: u64, program: &Vec<Statement>) -> (count: usize)
    ensures
        count == capped(program_draws(limit, statement_models(program@))),
{
    plus(2, count_block_draws(limit, program, 0))
}

/// Draws a tape from the system's random number generator: `wanted`
/// draws, but no more than [`TAPE_LIMIT`]. Nothing is known of the
/// draws. A run that takes more draws than the tape holds takes 0 for
/// each further draw.
pub fn fresh_tape(wanted: usize) -> (tape: Vec<u64>)
    ensures
        tape.len() == tape_length(wanted as nat),
{
    let length = if wanted > TAPE_LIMIT {
        TAPE_LIMIT
    } else {
        wanted
    };
    let mut tape: Vec<u64> = Vec::new();
    while tape.len() < length
        invariant
            tape.len() <= length,
        decreases length - tape.len(),
    {
        tape.push(system_draw());
    }
    tape
}

} // verus!
