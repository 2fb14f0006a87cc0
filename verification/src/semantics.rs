//! What a program means: the interpreter's behaviour as mathematical
//! functions.
//!
//! A [`Machine`] is the state of one execution. Every function here takes a
//! machine, a piece of syntax, a tape of random draws and a cursor into the
//! tape, and returns an [`Outcome`]: the result, the machine afterwards and
//! the cursor afterwards. All randomness comes from the tape, so the
//! functions are deterministic; a draw past the end of the tape is 0.
//!
//! Two strategies exist. The deterministic one computes what the program
//! says. The chaotic one computes something else, and fails at random.
//! [`Machine::deterministic`] says which one applies.

use vstd::prelude::*;
use crate::ast::{BinaryOp, ExpressionView, LiteralView, StatementView};
use crate::value::{decimal, error_text, field_position, with_field, with_values_swapped};
use crate::value::{EffectView, RuntimeErrorView, ValueView};

verus! {

/// How often, in percent, each chaotic behaviour occurs, and the limits of
/// the behaviours that would otherwise never end. A percentage of 100 or
/// more means always, 0 means never.
#[derive(Debug, Clone, Copy, PartialEq, Eq)]
pub struct ChaosConfig {
    /// A program fails with `Teapot` before its first statement.
    pub startup_failure: u8,
    /// A program fails with `PerfectlyWrong` after its last statement.
    pub shutdown_failure: u8,
    /// `let` reports its variable as undefined and binds nothing.
    pub let_failure: u8,
    /// `if` with an else-branch fails with `CreativeBreakage`.
    pub if_failure: u8,
    /// `loop` fails with `TaskFailedSuccessfully`.
    pub loop_failure: u8,
    /// `print` first opens one of the URLs.
    pub print_browser: u8,
    /// `print` fails with `StylePoints` instead of printing.
    pub print_failure: u8,
    /// Declaring an async function fails with `AsyncTimeout`.
    pub async_declaration_failure: u8,
    /// `catch` receives the text of the wrong error.
    pub catch_wrong_error: u8,
    /// The statement `await` fails with `AsyncTimeout`.
    pub await_failure: u8,
    /// Under the deterministic strategy: whether the statement `await`
    /// times out.
    pub await_times_out: bool,
    /// A boolean literal becomes something else.
    pub boolean_literal_chaos: u8,
    /// A number literal becomes a boolean.
    pub number_literal_chaos: u8,
    /// Any other literal becomes a placeholder.
    pub other_literal_chaos: u8,
    /// A variable that has a value claims to have none.
    pub identifier_vacation: u8,
    /// `add` multiplies instead of subtracting.
    pub add_multiplies: u8,
    /// `multiply` adds instead of dividing.
    pub multiply_adds: u8,
    /// A call returns null.
    pub call_null: u8,
    /// A call that does not return null fails with
    /// `TaskFailedSuccessfully` (counted after `call_null`).
    pub call_task_failed: u8,
    /// Array access fails with `ArrayVacation`.
    pub array_vacation: u8,
    /// Array access returns an element chosen at random.
    pub array_random_element: u8,
    /// Object access swaps the values of two fields before it fails.
    pub object_swap: u8,
    /// A promise is rejected.
    pub promise_rejection: u8,
    /// An awaited promise changes its mind.
    pub await_changed_mind: u8,
    /// One round of `exit()` ends the loop with an error.
    pub exit_escape: u8,
    /// The number of rounds after which `exit()` gives up in any case.
    pub exit_iteration_limit: u64,
}

/// The shortest time a promise takes, in milliseconds.
pub const PROMISE_DELAY_MIN: u64 = 100;

/// The length of the range from which the rest of a promise's delay is
/// drawn, in milliseconds.
pub const PROMISE_DELAY_SPAN: u64 = 1900;

/// The pause after each question of `exit()`, in milliseconds.
pub const EXIT_PAUSE: u64 = 2000;

/// The state of one execution.
pub ghost struct Machine {
    /// The value of each variable.
    pub variables: Map<Seq<char>, ValueView>,
    /// The names of the directives that are active.
    pub directives: Set<Seq<char>>,
    /// Whether deterministic mode has been switched on for good.
    pub normal: bool,
    /// The probabilities and limits.
    pub config: ChaosConfig,
    /// The URLs among which `print` chooses.
    pub urls: Seq<Seq<char>>,
    /// Whether the host can open a browser.
    pub browser_available: bool,
    /// Everything the host has been asked to do so far, in order.
    pub effects: Seq<EffectView>,
}

/// What an evaluation gives: a result, and the machine and the cursor as
/// they are afterwards.
pub ghost struct Outcome<T> {
    /// The value, or the error.
    pub result: Result<T, RuntimeErrorView>,
    /// The machine after the evaluation.
    pub machine: Machine,
    /// The cursor after the evaluation.
    pub cursor: usize,
}

/// The draw at position `cursor` of the tape, 0 past its end.
pub open spec fn draw(tape: Seq<u64>, cursor: usize) -> u64 {
    if cursor < tape.len() {
        tape[cursor as int]
    } else {
        0
    }
}

/// The cursor after one draw.
pub open spec fn step(cursor: usize) -> usize {
    if cursor < usize::MAX {
        (cursor + 1) as usize
    } else {
        cursor
    }
}

/// Whether an event of the given probability happens on the given draw.
pub open spec fn happens(percent: u8, draw: u64) -> bool {
    draw % 100 < percent
}

/// Whether `name` is a directive the language knows.
pub open spec fn known_directive(name: Seq<char>) -> bool {
    name == "disable_useless"@ || name == "experimental"@
}

/// The line that warns of a directive the language does not know.
pub open spec fn unknown_directive_warning(name: Seq<char>) -> EffectView {
    EffectView::Say { text: "Warning: Unknown directive #"@ + name }
}

impl Machine {
    /// Whether the deterministic strategy applies: deterministic mode is
    /// on, or the directive `disable_useless` is active.
    pub open spec fn deterministic(self) -> bool {
        self.normal || self.directives.contains("disable_useless"@)
    }

    /// The machine after `name` has been given `value`.
    pub open spec fn bind(self, name: Seq<char>, value: ValueView) -> Machine {
        Machine { variables: self.variables.insert(name, value), ..self }
    }

    /// The machine after the host has been asked for `effect`.
    pub open spec fn record(self, effect: EffectView) -> Machine {
        Machine { effects: self.effects.push(effect), ..self }
    }

    /// The machine with the directive `name` active.
    pub open spec fn activate(self, name: Seq<char>) -> Machine {
        Machine { directives: self.directives.insert(name), ..self }
    }

    /// The machine with the directive `name` no longer active.
    pub open spec fn deactivate(self, name: Seq<char>) -> Machine {
        Machine { directives: self.directives.remove(name), ..self }
    }

    /// The machine after a warning, if `name` is not a known directive.
    pub open spec fn warn_if_unknown(self, name: Seq<char>) -> Machine {
        if known_directive(name) {
            self
        } else {
            self.record(unknown_directive_warning(name))
        }
    }
}

/// A successful outcome.
pub open spec fn done<T>(machine: Machine, cursor: usize, value: T) -> Outcome<T> {
    Outcome { result: Ok(value), machine, cursor }
}

/// A failed outcome.
pub open spec fn failed<T>(machine: Machine, cursor: usize, error: RuntimeErrorView) -> Outcome<
    T,
> {
    Outcome { result: Err(error), machine, cursor }
}

/// The failure of one outcome, as an outcome of another type.
pub open spec fn pass_on<S, T>(outcome: Outcome<S>) -> Outcome<T>
    recommends
        outcome.result is Err,
{
    Outcome { result: Err(outcome.result->Err_0), machine: outcome.machine, cursor: outcome.cursor }
}

/// A generic error with the given description.
pub open spec fn generic(text: Seq<char>) -> RuntimeErrorView {
    RuntimeErrorView::Generic(text)
}

/// The error of an arithmetic result that does not fit in 64 bits.
pub open spec fn overflow_error() -> RuntimeErrorView {
    generic("Arithmetic overflow"@)
}

/// Whether `number` fits in a 64-bit signed integer.
pub open spec fn fits(number: int) -> bool {
    i64::MIN <= number <= i64::MAX
}

/// A number as a value, or the overflow error where it does not fit.
pub open spec fn number_or_overflow(number: int) -> Result<ValueView, RuntimeErrorView> {
    if fits(number) {
        Ok(ValueView::Number { value: number as i64 })
    } else {
        Err(overflow_error())
    }
}

/// Integer division that rounds towards zero.
pub open spec fn quotient(left: int, right: int) -> int
    recommends
        right != 0,
{
    if left >= 0 {
        if right > 0 {
            left / right
        } else {
            -(left / (-right))
        }
    } else {
        if right > 0 {
            -((-left) / right)
        } else {
            (-left) / (-right)
        }
    }
}

/// The error of a binary operation on operands of the wrong kind, or of
/// an operation that is not supported.
pub open spec fn operand_error(op: BinaryOp) -> RuntimeErrorView {
    match op {
        BinaryOp::Add => generic("Invalid types for addition"@),
        BinaryOp::Multiply => generic("Invalid types for multiplication"@),
        BinaryOp::Equals => generic("Invalid types for equality"@),
        BinaryOp::LessThan => generic("Invalid types for less than"@),
        BinaryOp::Index => generic("Operation not supported"@),
        BinaryOp::Access => generic("Operation not supported"@),
    }
}

/// A binary operation under the deterministic strategy: the operation
/// that the keyword names. `multiply` by zero is a division by zero all
/// the same.
pub open spec fn plain_binary(op: BinaryOp, left: ValueView, right: ValueView) -> Result<
    ValueView,
    RuntimeErrorView,
> {
    match (left, right) {
        (ValueView::Number { value: l }, ValueView::Number { value: r }) => match op {
            BinaryOp::Add => number_or_overflow(l + r),
            BinaryOp::Multiply => if r == 0 {
                Err(RuntimeErrorView::DivisionByZero)
            } else {
                number_or_overflow(l * r)
            },
            BinaryOp::Equals => Ok(ValueView::Boolean { value: l == r }),
            BinaryOp::LessThan => Ok(ValueView::Boolean { value: l < r }),
            _ => Err(operand_error(op)),
        },
        _ => Err(operand_error(op)),
    }
}

/// A binary operation under the chaotic strategy: `add` subtracts, or
/// multiplies; `multiply` divides, or adds; `equals` is a coin; `lessThan`
/// is greater-than.
pub open spec fn chaotic_binary(
    config: ChaosConfig,
    op: BinaryOp,
    left: ValueView,
    right: ValueView,
    draw: u64,
) -> Result<ValueView, RuntimeErrorView> {
    match (left, right) {
        (ValueView::Number { value: l }, ValueView::Number { value: r }) => match op {
            BinaryOp::Add => if happens(config.add_multiplies, draw) {
                number_or_overflow(l * r)
            } else {
                number_or_overflow(l - r)
            },
            BinaryOp::Multiply => if r == 0 {
                Err(RuntimeErrorView::DivisionByZero)
            } else if happens(config.multiply_adds, draw) {
                number_or_overflow(l + r)
            } else {
                number_or_overflow(quotient(l as int, r as int))
            },
            BinaryOp::Equals => Ok(ValueView::Boolean { value: draw % 2 == 1 }),
            BinaryOp::LessThan => Ok(ValueView::Boolean { value: l > r }),
            _ => Err(operand_error(op)),
        },
        _ => Err(operand_error(op)),
    }
}

/// A binary operation on two values: the plain one under the
/// deterministic strategy; the chaotic one, which takes one draw,
/// otherwise.
pub open spec fn apply_binary(
    machine: Machine,
    op: BinaryOp,
    left: ValueView,
    right: ValueView,
    tape: Seq<u64>,
    cursor: usize,
) -> Outcome<ValueView> {
    if machine.deterministic() {
        Outcome { result: plain_binary(op, left, right), machine, cursor }
    } else {
        Outcome {
            result: chaotic_binary(machine.config, op, left, right, draw(tape, cursor)),
            machine,
            cursor: step(cursor),
        }
    }
}

/// What a boolean literal becomes when chaos strikes it.
pub open spec fn chaotic_boolean(flag: bool, draw: u64) -> ValueView {
    if draw % 3 == 0 {
        ValueView::Boolean { value: !flag }
    } else if draw % 3 == 1 {
        ValueView::String {
            value: if flag {
                "true"@
            } else {
                "false"@
            },
        }
    } else {
        ValueView::Number {
            value: if flag {
                1
            } else {
                0
            },
        }
    }
}

/// What a literal that is neither a boolean nor a number becomes when
/// chaos strikes it.
pub open spec fn placeholder(draw: u64) -> ValueView {
    if draw % 5 == 0 {
        ValueView::String { value: "null and void"@ }
    } else if draw % 5 == 1 {
        ValueView::Number { value: 0 }
    } else if draw % 5 == 2 {
        ValueView::Boolean { value: false }
    } else if draw % 5 == 3 {
        ValueView::Array { values: seq![ValueView::Null] }
    } else {
        ValueView::Object { fields: Seq::empty() }
    }
}

/// The value of a variable. Under the chaotic strategy a variable that
/// has a value takes one draw and may claim to have none.
pub open spec fn eval_identifier(machine: Machine, name: Seq<char>, tape: Seq<u64>, cursor: usize)
    -> Outcome<ValueView> {
    if !machine.variables.contains_key(name) {
        failed(machine, cursor, RuntimeErrorView::UndefinedVariable(name))
    } else if machine.deterministic() {
        done(machine, cursor, machine.variables[name])
    } else if happens(machine.config.identifier_vacation, draw(tape, cursor)) {
        failed(machine, step(cursor), RuntimeErrorView::UndefinedVariable(name))
    } else {
        done(machine, step(cursor), machine.variables[name])
    }
}

/// The lines with which `exit()` begins.
pub open spec fn exit_prelude() -> Seq<EffectView> {
    seq![
        EffectView::Say { text: "🤔 Contemplating the meaning of exit()..."@ },
        EffectView::Say {
            text: "💭 If a program exits but nobody is around to see it, did it really exit?"@,
        },
        EffectView::Say {
            text: "🌌 Maybe the real exit was the infinite loops we made along the way..."@,
        },
    ]
}

/// The questions of one round of `exit()`, each followed by a pause.
pub open spec fn exit_round() -> Seq<EffectView> {
    seq![
        EffectView::Say { text: "🤯 What is the sound of one program looping?"@ },
        EffectView::Sleep { milliseconds: EXIT_PAUSE },
        EffectView::Say {
            text: "🤯 If all programs are useless, is a useless program actually useful?"@,
        },
        EffectView::Sleep { milliseconds: EXIT_PAUSE },
        EffectView::Say { text: "🤯 Do programs dream of electric sheep?"@ },
        EffectView::Sleep { milliseconds: EXIT_PAUSE },
        EffectView::Say { text: "🤯 Why do we exit when we can just keep running forever?"@ },
        EffectView::Sleep { milliseconds: EXIT_PAUSE },
        EffectView::Say {
            text: "🤯 Is an infinite loop that never ends more or less infinite than one that does?"@,
        },
        EffectView::Sleep { milliseconds: EXIT_PAUSE },
    ]
}

/// The error with which `exit()` ends.
pub open spec fn exit_error() -> RuntimeErrorView {
    generic("Successfully failed to exit. Task failed successfully!"@)
}

/// The rounds of `exit()` from round `round` on. Each round asks its
/// questions; under the chaotic strategy it then takes one draw and may
/// end the loop. After `exit_iteration_limit` rounds the loop ends in any
/// case. It always ends with the same error.
pub open spec fn exit_rounds(machine: Machine, round: u64, tape: Seq<u64>, cursor: usize)
    -> Outcome<ValueView>
    decreases machine.config.exit_iteration_limit - round,
{
    if round >= machine.config.exit_iteration_limit {
        failed(machine, cursor, exit_error())
    } else {
        let asked = Machine { effects: machine.effects + exit_round(), ..machine };
        if asked.deterministic() {
            exit_rounds(asked, (round + 1) as u64, tape, cursor)
        } else if happens(asked.config.exit_escape, draw(tape, cursor)) {
            failed(asked, step(cursor), exit_error())
        } else {
            exit_rounds(asked, (round + 1) as u64, tape, step(cursor))
        }
    }
}

/// A call. `exit` takes no arguments and never succeeds. Any other
/// function ignores its arguments: it returns null under the
/// deterministic strategy, and takes one draw to choose between null and
/// two failures under the chaotic one.
pub open spec fn eval_call(
    machine: Machine,
    name: Seq<char>,
    arguments: nat,
    tape: Seq<u64>,
    cursor: usize,
) -> Outcome<ValueView> {
    if name == "exit"@ {
        if arguments != 0 {
            failed(
                machine,
                cursor,
                generic("exit() doesn't need arguments, it won't use them anyway!"@),
            )
        } else {
            exit_rounds(
                Machine { effects: machine.effects + exit_prelude(), ..machine },
                0,
                tape,
                cursor,
            )
        }
    } else if machine.deterministic() {
        done(machine, cursor, ValueView::Null)
    } else {
        let chance = draw(tape, cursor) % 100;
        if chance < machine.config.call_null {
            done(machine, step(cursor), ValueView::Null)
        } else if chance < machine.config.call_null + machine.config.call_task_failed {
            failed(machine, step(cursor), RuntimeErrorView::TaskFailedSuccessfully)
        } else {
            failed(
                machine,
                step(cursor),
                generic("Function "@ + name + " went to get coffee ☕"@),
            )
        }
    }
}

/// The error of an access that is not an object with a string key nor an
/// array with a number index.
pub open spec fn access_kind_error(object: ValueView) -> RuntimeErrorView {
    match object {
        ValueView::Object { .. } => generic(
            "Object keys must be strings! What kind of chaos are you trying to create? 🎭"@,
        ),
        ValueView::Array { .. } => generic(
            "Array indices must be numbers! Did you try to index with a 🦄?"@,
        ),
        _ => generic("Cannot access fields of non-object types. What did you expect?"@),
    }
}

/// The error of an index outside an array.
pub open spec fn out_of_bounds_error(index: i64) -> RuntimeErrorView {
    generic(
        "Index "@ + decimal(index as int)
            + " is out of bounds. The array is playing hide and seek!"@,
    )
}

/// The error of a key that an object does not have.
pub open spec fn missing_key_error(key: Seq<char>) -> RuntimeErrorView {
    generic("Key '"@ + key + "' is missing. The object is playing hide and seek!"@)
}

/// The element of an array at `index`.
pub open spec fn element_at(values: Seq<ValueView>, index: i64) -> Result<
    ValueView,
    RuntimeErrorView,
> {
    if 0 <= index < values.len() {
        Ok(values[index as int])
    } else {
        Err(out_of_bounds_error(index))
    }
}

/// The value of the first field named `key`.
pub open spec fn field_named(fields: Seq<(Seq<char>, ValueView)>, key: Seq<char>) -> Result<
    ValueView,
    RuntimeErrorView,
> {
    match field_position(fields, key, 0) {
        Some(at) => Ok(fields[at].1),
        None => Err(missing_key_error(key)),
    }
}

/// Access under the deterministic strategy: the field or the element
/// asked for.
pub open spec fn plain_access(object: ValueView, key: ValueView) -> Result<
    ValueView,
    RuntimeErrorView,
> {
    match (object, key) {
        (ValueView::Object { fields }, ValueView::String { value }) => field_named(fields, value),
        (ValueView::Array { values }, ValueView::Number { value }) => element_at(values, value),
        _ => Err(access_kind_error(object)),
    }
}

/// The positions of the two fields whose values object access swaps:
/// two different positions below `count`, chosen by two draws.
pub open spec fn swap_positions(count: nat, first_draw: u64, second_draw: u64) -> (int, int)
    recommends
        count >= 2,
{
    let first = first_draw as int % count as int;
    let second = (first + 1 + second_draw as int % (count - 1)) % count as int;
    (first, second)
}

/// The fields of an object as chaotic access leaves them. The swap is
/// done on the value that access was given; nothing keeps that value.
pub open spec fn chaotic_object_fields(
    config: ChaosConfig,
    fields: Seq<(Seq<char>, ValueView)>,
    tape: Seq<u64>,
    cursor: usize,
) -> Seq<(Seq<char>, ValueView)> {
    if happens(config.object_swap, draw(tape, cursor)) && fields.len() >= 2 {
        let positions = swap_positions(
            fields.len(),
            draw(tape, step(cursor)),
            draw(tape, step(step(cursor))),
        );
        with_values_swapped(fields, positions.0, positions.1)
    } else {
        fields
    }
}

/// Access under the chaotic strategy. On an object with a string key it
/// takes one draw, and two more if it swaps two fields, and fails. On an
/// array with a number index it takes one draw to fail, else a second to
/// choose between a random element, which takes a third, and the element
/// asked for.
pub open spec fn chaotic_access(
    machine: Machine,
    object: ValueView,
    key: ValueView,
    tape: Seq<u64>,
    cursor: usize,
) -> Outcome<ValueView> {
    match (object, key) {
        (ValueView::Object { fields }, ValueView::String { value }) => {
            if happens(machine.config.object_swap, draw(tape, cursor)) && fields.len() >= 2 {
                failed(machine, step(step(step(cursor))), RuntimeErrorView::ObjectChaos)
            } else {
                failed(machine, step(cursor), RuntimeErrorView::ObjectChaos)
            }
        },
        (ValueView::Array { values }, ValueView::Number { value }) => {
            if happens(machine.config.array_vacation, draw(tape, cursor)) {
                failed(machine, step(cursor), RuntimeErrorView::ArrayVacation)
            } else if happens(machine.config.array_random_element, draw(tape, step(cursor))) {
                if values.len() == 0 {
                    failed(
                        machine,
                        step(step(cursor)),
                        generic("Array is empty, just like my promises!"@),
                    )
                } else {
                    done(
                        machine,
                        step(step(step(cursor))),
                        values[draw(tape, step(step(cursor))) as int % values.len() as int],
                    )
                }
            } else {
                Outcome {
                    result: element_at(values, value),
                    machine,
                    cursor: step(step(cursor)),
                }
            }
        },
        _ => failed(machine, cursor, access_kind_error(object)),
    }
}

/// Access on two values, under the strategy that applies.
pub open spec fn apply_access(
    machine: Machine,
    object: ValueView,
    key: ValueView,
    tape: Seq<u64>,
    cursor: usize,
) -> Outcome<ValueView> {
    if machine.deterministic() {
        Outcome { result: plain_access(object, key), machine, cursor }
    } else {
        chaotic_access(machine, object, key, tape, cursor)
    }
}

/// The pause of a promise: the delay in milliseconds, which the host is
/// asked to sleep. Under the deterministic strategy the delay is the
/// shortest one. Under the chaotic strategy one draw may reject the
/// promise, and a second one chooses the delay.
pub open spec fn promise_pause(machine: Machine, tape: Seq<u64>, cursor: usize) -> Outcome<u64> {
    if machine.deterministic() {
        done(
            machine.record(EffectView::Sleep { milliseconds: PROMISE_DELAY_MIN }),
            cursor,
            PROMISE_DELAY_MIN,
        )
    } else if happens(machine.config.promise_rejection, draw(tape, cursor)) {
        failed(machine, step(cursor), RuntimeErrorView::PromiseRejected)
    } else {
        let delay = (PROMISE_DELAY_MIN + draw(tape, step(cursor)) % PROMISE_DELAY_SPAN) as u64;
        done(machine.record(EffectView::Sleep { milliseconds: delay }), step(step(cursor)), delay)
    }
}

/// Whether a promise that took `delay` milliseconds is too late for the
/// timeout `limit`. Only a number that is not negative is a limit.
pub open spec fn too_late(delay: u64, limit: ValueView) -> bool {
    match limit {
        ValueView::Number { value } => value >= 0 && delay > value,
        _ => false,
    }
}

/// The promise that has resolved to `value`.
pub open spec fn resolved_promise(value: ValueView) -> ValueView {
    ValueView::Promise { value: Box::new(value), resolved: true }
}

/// What awaiting a value gives. A resolved promise gives its value; under
/// the chaotic strategy it takes one draw and may change its mind.
pub open spec fn resolve_await(machine: Machine, promise: ValueView, tape: Seq<u64>, cursor: usize)
    -> Outcome<ValueView> {
    match promise {
        ValueView::Promise { value, resolved } => {
            if !resolved {
                failed(machine, cursor, RuntimeErrorView::PromiseRejected)
            } else if machine.deterministic() {
                done(machine, cursor, *value)
            } else if happens(machine.config.await_changed_mind, draw(tape, cursor)) {
                done(
                    machine,
                    step(cursor),
                    ValueView::String { value: "Promise changed its mind 🤔"@ },
                )
            } else {
                done(machine, step(cursor), *value)
            }
        },
        _ => failed(machine, cursor, generic("Can't await something that isn't a promise! 🤯"@)),
    }
}

/// The value of an expression.
pub open spec fn eval_expression(
    machine: Machine,
    expression: ExpressionView,
    tape: Seq<u64>,
    cursor: usize,
) -> Outcome<ValueView>
    decreases expression, 0nat,
{
    match expression {
        ExpressionView::Literal(literal) => eval_literal(machine, literal, tape, cursor),
        ExpressionView::Identifier(name) => eval_identifier(machine, name, tape, cursor),
        ExpressionView::BinaryOp { op, left, right } => {
            let first = eval_expression(machine, *left, tape, cursor);
            if first.result is Err {
                first
            } else {
                let second = eval_expression(first.machine, *right, tape, first.cursor);
                if second.result is Err {
                    second
                } else {
                    apply_binary(
                        second.machine,
                        op,
                        first.result->Ok_0,
                        second.result->Ok_0,
                        tape,
                        second.cursor,
                    )
                }
            }
        },
        ExpressionView::FunctionCall { name, arguments } => eval_call(
            machine,
            name,
            arguments.len(),
            tape,
            cursor,
        ),
        ExpressionView::Access { object, key } => {
            let first = eval_expression(machine, *object, tape, cursor);
            if first.result is Err {
                first
            } else {
                let second = eval_expression(first.machine, *key, tape, first.cursor);
                if second.result is Err {
                    second
                } else {
                    apply_access(
                        second.machine,
                        first.result->Ok_0,
                        second.result->Ok_0,
                        tape,
                        second.cursor,
                    )
                }
            }
        },
        ExpressionView::Promise { value, timeout } => {
            let inner = eval_expression(machine, *value, tape, cursor);
            if inner.result is Err {
                inner
            } else {
                let pause = promise_pause(inner.machine, tape, inner.cursor);
                if pause.result is Err {
                    pass_on(pause)
                } else {
                    match timeout {
                        Some(limit) => {
                            let bound = eval_expression(pause.machine, *limit, tape, pause.cursor);
                            if bound.result is Err {
                                bound
                            } else if too_late(pause.result->Ok_0, bound.result->Ok_0) {
                                failed(
                                    bound.machine,
                                    bound.cursor,
                                    RuntimeErrorView::AsyncTimeout,
                                )
                            } else {
                                done(
                                    bound.machine,
                                    bound.cursor,
                                    resolved_promise(inner.result->Ok_0),
                                )
                            }
                        },
                        None => done(
                            pause.machine,
                            pause.cursor,
                            resolved_promise(inner.result->Ok_0),
                        ),
                    }
                }
            }
        },
        ExpressionView::Await { promise } => {
            let inner = eval_expression(machine, *promise, tape, cursor);
            if inner.result is Err {
                inner
            } else {
                resolve_await(inner.machine, inner.result->Ok_0, tape, inner.cursor)
            }
        },
    }
}

/// The value of a literal. Under the deterministic strategy it is the
/// value as written. Under the chaotic strategy one draw decides whether
/// chaos strikes; if it does, a boolean or another literal takes a second
/// draw to choose what it becomes, and a number becomes a boolean.
pub open spec fn eval_literal(
    machine: Machine,
    literal: LiteralView,
    tape: Seq<u64>,
    cursor: usize,
) -> Outcome<ValueView>
    decreases literal, 1nat,
{
    if machine.deterministic() {
        eval_as_written(machine, literal, tape, cursor)
    } else {
        match literal {
            LiteralView::Boolean(flag) => if happens(
                machine.config.boolean_literal_chaos,
                draw(tape, cursor),
            ) {
                done(machine, step(step(cursor)), chaotic_boolean(flag, draw(tape, step(cursor))))
            } else {
                done(machine, step(cursor), ValueView::Boolean { value: flag })
            },
            LiteralView::Number(number) => if happens(
                machine.config.number_literal_chaos,
                draw(tape, cursor),
            ) {
                done(machine, step(cursor), ValueView::Boolean { value: number != 0 })
            } else {
                done(machine, step(cursor), ValueView::Number { value: number })
            },
            _ => if happens(machine.config.other_literal_chaos, draw(tape, cursor)) {
                done(machine, step(step(cursor)), placeholder(draw(tape, step(cursor))))
            } else {
                eval_as_written(machine, literal, tape, step(cursor))
            },
        }
    }
}

/// The value of a literal as written. The elements of an array and the
/// values of an object are evaluated in order; one that fails is left out.
pub open spec fn eval_as_written(
    machine: Machine,
    literal: LiteralView,
    tape: Seq<u64>,
    cursor: usize,
) -> Outcome<ValueView>
    decreases literal, 0nat,
{
    match literal {
        LiteralView::String(text) => done(machine, cursor, ValueView::String { value: text }),
        LiteralView::Number(number) => done(machine, cursor, ValueView::Number { value: number }),
        LiteralView::Boolean(flag) => done(machine, cursor, ValueView::Boolean { value: flag }),
        LiteralView::Null => done(machine, cursor, ValueView::Null),
        LiteralView::Array(items) => {
            let elements = eval_elements(machine, items, 0, Seq::empty(), tape, cursor);
            done(elements.machine, elements.cursor, ValueView::Array { values: elements.value })
        },
        LiteralView::Object(pairs) => {
            let fields = eval_pairs(machine, pairs, 0, Seq::empty(), tape, cursor);
            done(fields.machine, fields.cursor, ValueView::Object { fields: fields.value })
        },
    }
}

/// What evaluating a list leniently gives: the values that could be
/// evaluated, and the machine and cursor afterwards.
pub ghost struct Gathered<T> {
    /// What was gathered.
    pub value: T,
    /// The machine afterwards.
    pub machine: Machine,
    /// The cursor afterwards.
    pub cursor: usize,
}

/// The values of the elements of an array literal from position `from`
/// on, added to `gathered`. An element that fails adds nothing.
pub open spec fn eval_elements(
    machine: Machine,
    items: Seq<ExpressionView>,
    from: nat,
    gathered: Seq<ValueView>,
    tape: Seq<u64>,
    cursor: usize,
) -> Gathered<Seq<ValueView>>
    decreases items, items.len() - from,
{
    if from >= items.len() {
        Gathered { value: gathered, machine, cursor }
    } else {
        let element = eval_expression(machine, items[from as int], tape, cursor);
        eval_elements(
            element.machine,
            items,
            from + 1,
            match element.result {
                Ok(value) => gathered.push(value),
                Err(_) => gathered,
            },
            tape,
            element.cursor,
        )
    }
}

/// The fields of an object literal from position `from` on, set in
/// `gathered`. A value that fails sets nothing; a key that occurs again
/// replaces the earlier value.
pub open spec fn eval_pairs(
    machine: Machine,
    pairs: Seq<(Seq<char>, ExpressionView)>,
    from: nat,
    gathered: Seq<(Seq<char>, ValueView)>,
    tape: Seq<u64>,
    cursor: usize,
) -> Gathered<Seq<(Seq<char>, ValueView)>>
    decreases pairs, pairs.len() - from,
{
    if from >= pairs.len() {
        Gathered { value: gathered, machine, cursor }
    } else {
        let element = eval_expression(machine, pairs[from as int].1, tape, cursor);
        eval_pairs(
            element.machine,
            pairs,
            from + 1,
            match element.result {
                Ok(value) => with_field(gathered, pairs[from as int].0, value),
                Err(_) => gathered,
            },
            tape,
            element.cursor,
        )
    }
}

/// The value that stands for a declared function: an object that tells
/// its kind and its parameter names.
pub open spec fn descriptor(kind: Seq<char>, parameters: Seq<Seq<char>>) -> ValueView {
    ValueView::Object {
        fields: seq![
            ("type"@, ValueView::String { value: kind }),
            (
                "params"@,
                ValueView::Array {
                    values: Seq::new(
                        parameters.len(),
                        |i: int| ValueView::String { value: parameters[i] },
                    ),
                },
            ),
        ],
    }
}

/// `print` once its value is known. Under the chaotic strategy the first
/// draw decides whether a URL is opened, which fails without a URL or a
/// browser and else takes a draw to choose the URL; the next draw decides
/// whether printing fails.
pub open spec fn print_value(machine: Machine, value: ValueView, tape: Seq<u64>, cursor: usize)
    -> Outcome<()> {
    if machine.deterministic() {
        done(machine.record(EffectView::Print { value }), cursor, ())
    } else if happens(machine.config.print_browser, draw(tape, cursor)) {
        if machine.urls.len() == 0 || !machine.browser_available {
            failed(machine, step(cursor), RuntimeErrorView::BrowserError)
        } else {
            let url = machine.urls[draw(tape, step(cursor)) as int % machine.urls.len() as int];
            print_or_fail(
                machine.record(EffectView::OpenUrl { url }),
                value,
                tape,
                step(step(cursor)),
            )
        }
    } else {
        print_or_fail(machine, value, tape, step(cursor))
    }
}

/// The end of a chaotic `print`: one draw decides between failing and
/// printing.
pub open spec fn print_or_fail(machine: Machine, value: ValueView, tape: Seq<u64>, cursor: usize)
    -> Outcome<()> {
    if happens(machine.config.print_failure, draw(tape, cursor)) {
        failed(machine, step(cursor), RuntimeErrorView::StylePoints)
    } else {
        done(machine.record(EffectView::Print { value }), step(cursor), ())
    }
}

/// `let` once its value is known. Under the chaotic strategy one draw
/// decides whether the variable is reported as undefined instead.
pub open spec fn let_value(
    machine: Machine,
    name: Seq<char>,
    value: ValueView,
    tape: Seq<u64>,
    cursor: usize,
) -> Outcome<()> {
    if machine.deterministic() {
        done(machine.bind(name, value), cursor, ())
    } else if happens(machine.config.let_failure, draw(tape, cursor)) {
        failed(machine, step(cursor), RuntimeErrorView::UndefinedVariable(name))
    } else {
        done(machine.bind(name, value), step(cursor), ())
    }
}

/// The declaration of a function: its descriptor is bound to its name.
/// Under the chaotic strategy the declaration of an async function takes
/// one draw and may time out.
pub open spec fn declare(
    machine: Machine,
    asynchronous: bool,
    name: Seq<char>,
    parameters: Seq<Seq<char>>,
    tape: Seq<u64>,
    cursor: usize,
) -> Outcome<()> {
    if !asynchronous {
        done(machine.bind(name, descriptor("function"@, parameters)), cursor, ())
    } else if machine.deterministic() {
        done(machine.bind(name, descriptor("async_function"@, parameters)), cursor, ())
    } else if happens(machine.config.async_declaration_failure, draw(tape, cursor)) {
        failed(machine, step(cursor), RuntimeErrorView::AsyncTimeout)
    } else {
        done(machine.bind(name, descriptor("async_function"@, parameters)), step(cursor), ())
    }
}

/// `save`: it never succeeds. Under the chaotic strategy one draw chooses
/// among three errors.
pub open spec fn save(machine: Machine, tape: Seq<u64>, cursor: usize) -> Outcome<()> {
    if machine.deterministic() {
        failed(machine, cursor, RuntimeErrorView::SaveError)
    } else if draw(tape, cursor) % 3 == 0 {
        failed(machine, step(cursor), RuntimeErrorView::SaveError)
    } else if draw(tape, cursor) % 3 == 1 {
        failed(machine, step(cursor), RuntimeErrorView::TaskFailedSuccessfully)
    } else {
        failed(machine, step(cursor), RuntimeErrorView::StylePoints)
    }
}

/// The statement `await` once its expression has been evaluated: the
/// configuration decides under the deterministic strategy, one draw under
/// the chaotic one.
pub open spec fn await_done(machine: Machine, tape: Seq<u64>, cursor: usize) -> Outcome<()> {
    if machine.deterministic() {
        if machine.config.await_times_out {
            failed(machine, cursor, RuntimeErrorView::AsyncTimeout)
        } else {
            done(machine, cursor, ())
        }
    } else if happens(machine.config.await_failure, draw(tape, cursor)) {
        failed(machine, step(cursor), RuntimeErrorView::AsyncTimeout)
    } else {
        done(machine, step(cursor), ())
    }
}

/// A bare directive: a known one becomes active and stays so, an unknown
/// one gives a warning.
pub open spec fn declare_directive(machine: Machine, name: Seq<char>) -> Machine {
    if known_directive(name) {
        machine.activate(name)
    } else {
        machine.record(unknown_directive_warning(name))
    }
}

/// The machine and cursor at the start of a catch-block: the error's
/// text is bound to the variable. Under the chaotic strategy one draw
/// decides whether the text of a wrong error is bound instead.
pub open spec fn caught(
    machine: Machine,
    variable: Seq<char>,
    error: RuntimeErrorView,
    tape: Seq<u64>,
    cursor: usize,
) -> Outcome<()> {
    if machine.deterministic() {
        done(machine.bind(variable, ValueView::String { value: error_text(error) }), cursor, ())
    } else if happens(machine.config.catch_wrong_error, draw(tape, cursor)) {
        done(
            machine.bind(variable, ValueView::String { value: "Caught the wrong error! 🎭"@ }),
            step(cursor),
            (),
        )
    } else {
        done(
            machine.bind(variable, ValueView::String { value: error_text(error) }),
            step(cursor),
            (),
        )
    }
}

/// The outcome of a statement that consists of an expression: that of
/// the expression, without its value.
pub open spec fn discard(outcome: Outcome<ValueView>) -> Outcome<()> {
    Outcome {
        result: match outcome.result {
            Ok(_) => Ok(()),
            Err(error) => Err(error),
        },
        machine: outcome.machine,
        cursor: outcome.cursor,
    }
}

/// What a statement does.
pub open spec fn exec_statement(
    machine: Machine,
    statement: StatementView,
    tape: Seq<u64>,
    cursor: usize,
) -> Outcome<()>
    decreases statement, 0nat,
{
    match statement {
        StatementView::Print { value } => {
            let printed = eval_expression(machine, value, tape, cursor);
            match printed.result {
                Ok(result) => print_value(printed.machine, result, tape, printed.cursor),
                Err(_) => discard(printed),
            }
        },
        StatementView::Let { name, value } => {
            let bound = eval_expression(machine, value, tape, cursor);
            match bound.result {
                Ok(result) => let_value(bound.machine, name, result, tape, bound.cursor),
                Err(_) => discard(bound),
            }
        },
        StatementView::Expression(expression) => discard(
            eval_expression(machine, expression, tape, cursor),
        ),
        StatementView::If { condition, then_branch, else_branch } => {
            if machine.deterministic() {
                let tested = eval_expression(machine, condition, tape, cursor);
                match tested.result {
                    Ok(ValueView::Boolean { value: true }) => exec_block(
                        tested.machine,
                        then_branch,
                        0,
                        tape,
                        tested.cursor,
                    ),
                    Ok(ValueView::Boolean { value: false }) => match else_branch {
                        Some(statements) => exec_block(
                            tested.machine,
                            statements,
                            0,
                            tape,
                            tested.cursor,
                        ),
                        None => done(tested.machine, tested.cursor, ()),
                    },
                    Ok(_) => failed(
                        tested.machine,
                        tested.cursor,
                        generic("Condition must be a boolean"@),
                    ),
                    Err(_) => discard(tested),
                }
            } else {
                match else_branch {
                    Some(statements) => if happens(machine.config.if_failure, draw(tape, cursor)) {
                        failed(machine, step(cursor), RuntimeErrorView::CreativeBreakage)
                    } else {
                        exec_block(machine, statements, 0, tape, step(cursor))
                    },
                    None => done(machine, cursor, ()),
                }
            }
        },
        StatementView::Loop { body } => {
            if machine.deterministic() {
                if body.len() > 0 {
                    exec_statement(machine, body[0], tape, cursor)
                } else {
                    done(machine, cursor, ())
                }
            } else if happens(machine.config.loop_failure, draw(tape, cursor)) {
                failed(machine, step(cursor), RuntimeErrorView::TaskFailedSuccessfully)
            } else if body.len() > 0 {
                exec_statement(machine, body[0], tape, step(cursor))
            } else {
                done(machine, step(cursor), ())
            }
        },
        StatementView::Function { name, parameters, body } => declare(
            machine,
            false,
            name,
            parameters,
            tape,
            cursor,
        ),
        StatementView::AsyncFunction { name, parameters, body } => declare(
            machine,
            true,
            name,
            parameters,
            tape,
            cursor,
        ),
        StatementView::TryCatch { try_block, error_var, catch_block } => {
            let tried = exec_block(machine, try_block, 0, tape, cursor);
            match tried.result {
                Ok(_) => tried,
                Err(error) => {
                    let ready = caught(tried.machine, error_var, error, tape, tried.cursor);
                    exec_block(ready.machine, catch_block, 0, tape, ready.cursor)
                },
            }
        },
        StatementView::Module { name, body } => exec_block(machine, body, 0, tape, cursor),
        StatementView::Use { path } => done(machine, cursor, ()),
        StatementView::Directive { name } => done(declare_directive(machine, name), cursor, ()),
        StatementView::Save { filename } => save(machine, tape, cursor),
        StatementView::Await { expression } => {
            let awaited = eval_expression(machine, expression, tape, cursor);
            match awaited.result {
                Ok(_) => await_done(awaited.machine, tape, awaited.cursor),
                Err(_) => discard(awaited),
            }
        },
        StatementView::Attributed { name, statement } => {
            let inner = exec_statement(
                machine.warn_if_unknown(name).activate(name),
                *statement,
                tape,
                cursor,
            );
            Outcome { machine: inner.machine.deactivate(name), ..inner }
        },
    }
}

/// What the statements of a block do from position `from` on: each in
/// turn, up to the first that fails.
pub open spec fn exec_block(
    machine: Machine,
    statements: Seq<StatementView>,
    from: nat,
    tape: Seq<u64>,
    cursor: usize,
) -> Outcome<()>
    decreases statements, statements.len() - from,
{
    if from >= statements.len() {
        done(machine, cursor, ())
    } else {
        let first = exec_statement(machine, statements[from as int], tape, cursor);
        if first.result is Err {
            first
        } else {
            exec_block(first.machine, statements, from + 1, tape, first.cursor)
        }
    }
}

/// Whether a program begins with the directive that switches
/// deterministic mode on for good.
pub open spec fn begins_normal(program: Seq<StatementView>) -> bool {
    program.len() > 0 && program[0] == (StatementView::Directive {
        name: "disable_all_useless_shit"@,
    })
}

/// What a program does. A program that begins with the directive
/// `disable_all_useless_shit` switches deterministic mode on and runs
/// the statements after the directive. Any other program runs all its
/// statements; unless deterministic mode is on, one draw before them and
/// one draw after them may make it fail.
pub open spec fn interpret(machine: Machine, program: Seq<StatementView>, tape: Seq<u64>, cursor: usize)
    -> Outcome<()> {
    if begins_normal(program) {
        exec_block(Machine { normal: true, ..machine }, program, 1, tape, cursor)
    } else if machine.normal {
        exec_block(machine, program, 0, tape, cursor)
    } else if happens(machine.config.startup_failure, draw(tape, cursor)) {
        failed(machine, step(cursor), RuntimeErrorView::Teapot)
    } else {
        let ran = exec_block(machine, program, 0, tape, step(cursor));
        if ran.result is Err {
            ran
        } else if happens(ran.machine.config.shutdown_failure, draw(tape, ran.cursor)) {
            failed(ran.machine, step(ran.cursor), RuntimeErrorView::PerfectlyWrong)
        } else {
            done(ran.machine, step(ran.cursor), ())
        }
    }
}

} // verus!
