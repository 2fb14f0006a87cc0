//! The tree-walking interpreter.
//!
//! An [`Interpreter`] owns the state of one execution. Its view is the
//! [`Machine`] of the semantics, and every function here is proved to do
//! what the semantics says. The functions whose names end in `_with` take
//! the tape of random draws from their caller; the others draw a fresh
//! tape from the system's random number generator first.
//!
//! The interpreter performs no input or output. What a program asks of
//! its host is recorded as a list of [`Effect`]s for the host to carry out.

use vstd::prelude::*;
use vstd::hash_map::StringHashMap;
use vstd::hash_set::StringHashSet;
use vstd::string::StringExecFns;
use crate::ast::{
    statement_models, text_models, BinaryOp, Expression, ExpressionView, Literal, Program,
    Statement,
};
pub use crate::semantics::ChaosConfig;
use crate::semantics::{
    apply_access, apply_binary, await_done, caught, chaotic_binary, chaotic_boolean,
    chaotic_object_fields, declare, declare_directive, descriptor, draw, eval_as_written,
    eval_call, eval_elements, eval_expression, eval_identifier, eval_literal, eval_pairs,
    exec_block, exec_statement, exit_rounds, happens, let_value, placeholder, plain_access,
    plain_binary, print_value, promise_pause, resolve_await, save, step, swap_positions,
    too_late, Machine, Outcome, EXIT_PAUSE, PROMISE_DELAY_MIN, PROMISE_DELAY_SPAN,
};
use crate::tape::{
    capped, count_expression_draws, count_program_draws, count_statement_draws,
    expression_draws, fresh_tape, literal_draws, program_draws, statement_draws, tape_length,
};
pub use crate::value::{Effect, RuntimeError, Value};
use crate::value::{
    effect_models, field_models, find_field, number_text, same_text, set_field,
    swap_field_values, value_models, EffectView, RuntimeErrorView, ValueView,
};

verus! {

/// The state of one execution.
pub struct Interpreter {
    variables: StringHashMap<Value>,
    random_urls: Vec<String>,
    directives: StringHashSet,
    is_completely_normal: bool,
    config: ChaosConfig,
    browser_available: bool,
    effects: Vec<Effect>,
}

/// The models of the values of the variables.
pub open spec fn variable_models(variables: Map<Seq<char>, Value>) -> Map<Seq<char>, ValueView> {
    Map::new(|name: Seq<char>| variables.contains_key(name), |name: Seq<char>| variables[name]@)
}

/// The model of the result of an expression.
pub open spec fn value_result(result: Result<Value, RuntimeError>) -> Result<
    ValueView,
    RuntimeErrorView,
> {
    match result {
        Ok(value) => Ok(value@),
        Err(error) => Err(error@),
    }
}

/// The model of the result of a statement.
pub open spec fn unit_result(result: Result<(), RuntimeError>) -> Result<(), RuntimeErrorView> {
    match result {
        Ok(_) => Ok(()),
        Err(error) => Err(error@),
    }
}

impl View for Interpreter {
    type V = Machine;

    closed spec fn view(&self) -> Machine {
        Machine {
            variables: variable_models(self.variables@),
            directives: self.directives@,
            normal: self.is_completely_normal,
            config: self.config,
            urls: text_models(self.random_urls@),
            browser_available: self.browser_available,
            effects: effect_models(self.effects@),
        }
    }
}

/// The draw at position `cursor` of the tape, 0 past its end.
fn draw_at(tape: &Vec<u64>, cursor: usize) -> (number: u64)
    ensures
        number == draw(tape@, cursor),
{
    if cursor < tape.len() {
        tape[cursor]
    } else {
        0
    }
}

/// The cursor after one draw.
fn advance(cursor: usize) -> (next: usize)
    ensures
        next == step(cursor),
{
    if cursor < usize::MAX {
        cursor + 1
    } else {
        cursor
    }
}

/// Whether an event of the given probability happens on the given draw.
fn chance(percent: u8, number: u64) -> (occurs: bool)
    ensures
        occurs == happens(percent, number),
{
    number % 100 < percent as u64
}

fn generic_error(text: &str) -> (error: RuntimeError)
    ensures
        error@ == RuntimeErrorView::Generic(text@),
{
    RuntimeError::Generic(String::from_str(text))
}

fn text_value(text: &str) -> (value: Value)
    ensures
        value@ == (ValueView::String { value: text@ }),
{
    Value::String { value: String::from_str(text) }
}

/// A number as a value, or the overflow error where the arithmetic gave
/// none.
fn number_or_error(number: Option<i64>) -> (result: Result<Value, RuntimeError>)
    ensures
        value_result(result) == match number {
            Some(value) => Ok(ValueView::Number { value }),
            None => Err(crate::semantics::overflow_error()),
        },
{
    match number {
        Some(value) => Ok(Value::Number { value }),
        None => Err(generic_error("Arithmetic overflow")),
    }
}

fn operand_error(op: BinaryOp) -> (error: RuntimeError)
    ensures
        error@ == crate::semantics::operand_error(op),
{
    match op {
        BinaryOp::Add => generic_error("Invalid types for addition"),
        BinaryOp::Multiply => generic_error("Invalid types for multiplication"),
        BinaryOp::Equals => generic_error("Invalid types for equality"),
        BinaryOp::LessThan => generic_error("Invalid types for less than"),
        BinaryOp::Index => generic_error("Operation not supported"),
        BinaryOp::Access => generic_error("Operation not supported"),
    }
}

/// A binary operation as the keyword names it.
pub fn binary_plain(op: BinaryOp, left: &Value, right: &Value) -> (result: Result<
    Value,
    RuntimeError,
>)
    ensures
        value_result(result) == plain_binary(op, left@, right@),
{
    match (left, right) {
        (Value::Number { value: l }, Value::Number { value: r }) => match op {
            BinaryOp::Add => number_or_error(l.checked_add(*r)),
            BinaryOp::Multiply => if *r == 0 {
                Err(RuntimeError::DivisionByZero)
            } else {
                number_or_error(l.checked_mul(*r))
            },
            BinaryOp::Equals => Ok(Value::Boolean { value: *l == *r }),
            BinaryOp::LessThan => Ok(Value::Boolean { value: *l < *r }),
            _ => Err(operand_error(op)),
        },
        _ => Err(operand_error(op)),
    }
}

/// A binary operation as chaos has it, on the given draw.
pub fn binary_chaotic(config: &ChaosConfig, op: BinaryOp, left: &Value, right: &Value, number: u64)
    -> (result: Result<Value, RuntimeError>)
    ensures
        value_result(result) == chaotic_binary(*config, op, left@, right@, number),
{
    match (left, right) {
        (Value::Number { value: l }, Value::Number { value: r }) => match op {
            BinaryOp::Add => if chance(config.add_multiplies, number) {
                number_or_error(l.checked_mul(*r))
            } else {
                number_or_error(l.checked_sub(*r))
            },
            BinaryOp::Multiply => if *r == 0 {
                Err(RuntimeError::DivisionByZero)
            } else if chance(config.multiply_adds, number) {
                number_or_error(l.checked_add(*r))
            } else {
                number_or_error(l.checked_div(*r))
            },
            BinaryOp::Equals => Ok(Value::Boolean { value: number % 2 == 1 }),
            BinaryOp::LessThan => Ok(Value::Boolean { value: *l > *r }),
            _ => Err(operand_error(op)),
        },
        _ => Err(operand_error(op)),
    }
}

fn access_kind_error(object: &Value) -> (error: RuntimeError)
    ensures
        error@ == crate::semantics::access_kind_error(object@),
{
    match object {
        Value::Object { .. } => generic_error(
            "Object keys must be strings! What kind of chaos are you trying to create? 🎭",
        ),
        Value::Array { .. } => generic_error(
            "Array indices must be numbers! Did you try to index with a 🦄?",
        ),
        _ => generic_error("Cannot access fields of non-object types. What did you expect?"),
    }
}

/// The element of an array at `index`.
pub fn element_at(values: &Vec<Value>, index: i64) -> (result: Result<Value, RuntimeError>)
    ensures
        value_result(result) == crate::semantics::element_at(value_models(values@), index),
{
    if 0 <= index && (index as u64) < values.len() as u64 {
        Ok(values[index as usize].clone())
    } else {
        let mut text = String::from_str("Index ");
        let written = number_text(index);
        text.append(written.as_str());
        text.append(" is out of bounds. The array is playing hide and seek!");
        Err(RuntimeError::Generic(text))
    }
}

/// The value of the first field named `key`.
pub fn field_named(fields: &Vec<(String, Value)>, key: &String) -> (result: Result<
    Value,
    RuntimeError,
>)
    ensures
        value_result(result) == crate::semantics::field_named(field_models(fields@), key@),
{
    match find_field(fields, key) {
        Some(at) => Ok(fields[at].1.clone()),
        None => {
            let mut text = String::from_str("Key '");
            text.append(key.as_str());
            text.append("' is missing. The object is playing hide and seek!");
            Err(RuntimeError::Generic(text))
        },
    }
}

/// Access as asked for.
pub fn access_plain(object: &Value, key: &Value) -> (result: Result<Value, RuntimeError>)
    ensures
        value_result(result) == plain_access(object@, key@),
{
    match (object, key) {
        (Value::Object { fields }, Value::String { value }) => field_named(fields, value),
        (Value::Array { values }, Value::Number { value }) => element_at(values, *value),
        _ => Err(access_kind_error(object)),
    }
}

/// The tape's choice of two different positions below `count`.
fn choose_two(count: usize, first_draw: u64, second_draw: u64) -> (positions: (usize, usize))
    requires
        count >= 2,
    ensures
        positions.0 < count,
        positions.1 < count,
        positions.0 != positions.1,
        (positions.0 as int, positions.1 as int) == swap_positions(
            count as nat,
            first_draw,
            second_draw,
        ),
{
    let first: u64 = first_draw % (count as u64);
    let offset: u64 = second_draw % ((count - 1) as u64);
    let sum: u128 = first as u128 + 1 + offset as u128;
    let second: u64 = (sum % (count as u128)) as u64;
    assert(second != first) by {
        let c = count as int;
        let f = first as int;
        let o = offset as int;
        if f + 1 + o < c {
            assert((f + 1 + o) % c == f + 1 + o) by (nonlinear_arith)
                requires
                    0 <= f + 1 + o < c,
            ;
        } else {
            assert((f + 1 + o) % c == f + 1 + o - c) by (nonlinear_arith)
                requires
                    c <= f + 1 + o < 2 * c,
            ;
        }
    }
    (first as usize, second as usize)
}

impl Interpreter {
    /// An interpreter with no variables, no active directives and the
    /// usual probabilities, that believes a browser is available.
    pub fn new() -> (interpreter: Self)
        ensures
            interpreter@ == Self::initial(Self::usual_config()),
    {
        Self::with_config(Self::default_config())
    }

    /// The probabilities and limits an interpreter has unless told
    /// otherwise.
    pub open spec fn usual_config() -> ChaosConfig {
        ChaosConfig {
            startup_failure: 10,
            shutdown_failure: 20,
            let_failure: 20,
            if_failure: 15,
            loop_failure: 25,
            print_browser: 100,
            print_failure: 10,
            async_declaration_failure: 30,
            catch_wrong_error: 40,
            await_failure: 40,
            await_times_out: false,
            boolean_literal_chaos: 100,
            number_literal_chaos: 50,
            other_literal_chaos: 100,
            identifier_vacation: 10,
            add_multiplies: 50,
            multiply_adds: 50,
            call_null: 30,
            call_task_failed: 30,
            array_vacation: 40,
            array_random_element: 30,
            object_swap: 30,
            promise_rejection: 40,
            await_changed_mind: 20,
            exit_escape: 1,
            exit_iteration_limit: 100,
        }
    }

    /// The URLs an interpreter starts with.
    pub open spec fn usual_urls() -> Seq<Seq<char>> {
        seq![
            "https://example.com"@,
            "https://nyancat.com"@,
            "https://zombo.com"@,
            "https://crouton.net"@,
            "https://theuselessweb.com"@,
            "https://cat-bounce.com"@,
            "https://pointerpointer.com"@,
            "https://findtheinvisiblecow.com"@,
            "https://thatsthefinger.com"@,
            "https://heeeeeeeey.com"@,
        ]
    }

    /// The machine of an interpreter that has run nothing yet.
    pub open spec fn initial(config: ChaosConfig) -> Machine {
        Machine {
            variables: Map::empty(),
            directives: Set::empty(),
            normal: false,
            config,
            urls: Self::usual_urls(),
            browser_available: true,
            effects: Seq::empty(),
        }
    }

    /// The probabilities and limits an interpreter has unless told
    /// otherwise.
    pub fn default_config() -> (config: ChaosConfig)
        ensures
            config == Self::usual_config(),
    {
        ChaosConfig {
            startup_failure: 10,
            shutdown_failure: 20,
            let_failure: 20,
            if_failure: 15,
            loop_failure: 25,
            print_browser: 100,
            print_failure: 10,
            async_declaration_failure: 30,
            catch_wrong_error: 40,
            await_failure: 40,
            await_times_out: false,
            boolean_literal_chaos: 100,
            number_literal_chaos: 50,
            other_literal_chaos: 100,
            identifier_vacation: 10,
            add_multiplies: 50,
            multiply_adds: 50,
            call_null: 30,
            call_task_failed: 30,
            array_vacation: 40,
            array_random_element: 30,
            object_swap: 30,
            promise_rejection: 40,
            await_changed_mind: 20,
            exit_escape: 1,
            exit_iteration_limit: 100,
        }
    }

    /// An interpreter with no variables, no active directives and the
    /// given probabilities, that believes a browser is available.
    pub fn with_config(config: ChaosConfig) -> (interpreter: Self)
        ensures
            interpreter@ == Self::initial(config),
    {
        let mut random_urls: Vec<String> = Vec::new();
        random_urls.push(String::from_str("https://example.com"));
        random_urls.push(String::from_str("https://nyancat.com"));
        random_urls.push(String::from_str("https://zombo.com"));
        random_urls.push(String::from_str("https://crouton.net"));
        random_urls.push(String::from_str("https://theuselessweb.com"));
        random_urls.push(String::from_str("https://cat-bounce.com"));
        random_urls.push(String::from_str("https://pointerpointer.com"));
        random_urls.push(String::from_str("https://findtheinvisiblecow.com"));
        random_urls.push(String::from_str("https://thatsthefinger.com"));
        random_urls.push(String::from_str("https://heeeeeeeey.com"));
        let interpreter = Interpreter {
            variables: StringHashMap::new(),
            random_urls,
            directives: StringHashSet::new(),
            is_completely_normal: false,
            config,
            browser_available: true,
            effects: Vec::new(),
        };
        assert(interpreter@.variables =~= Map::empty());
        assert(interpreter@.urls =~= Self::usual_urls());
        assert(interpreter@.effects =~= Seq::empty());
        interpreter
    }

    /// Whether the directive `name` is active.
    pub fn has_directive(&self, name: &str) -> (active: bool)
        ensures
            active == self@.directives.contains(name@),
    {
        self.directives.contains(name)
    }

    /// Whether deterministic mode is on.
    pub fn is_normal(&self) -> (normal: bool)
        ensures
            normal == self@.normal,
    {
        self.is_completely_normal
    }

    /// The probabilities and limits in use.
    pub fn config(&self) -> (config: ChaosConfig)
        ensures
            config == self@.config,
    {
        self.config
    }

    /// Replaces the probabilities and limits.
    pub fn set_config(&mut self, config: ChaosConfig)
        ensures
            final(self)@ == (Machine { config, ..old(self)@ }),
    {
        self.config = config;
    }

    /// Tells the interpreter whether the host can open a browser.
    pub fn set_browser_available(&mut self, available: bool)
        ensures
            final(self)@ == (Machine { browser_available: available, ..old(self)@ }),
    {
        self.browser_available = available;
    }

    /// A copy of the value of the variable `name`, if it has one.
    pub fn variable(&self, name: &str) -> (value: Option<Value>)
        ensures
            match value {
                Some(found) => self@.variables.contains_key(name@) && found@
                    == self@.variables[name@],
                None => !self@.variables.contains_key(name@),
            },
    {
        match self.variables.get(name) {
            Some(found) => Some(found.clone()),
            None => None,
        }
    }

    /// The number of effects recorded and not yet taken.
    pub fn pending_effects(&self) -> (count: usize)
        ensures
            count == self@.effects.len(),
    {
        self.effects.len()
    }

    /// Hands out the recorded effects, oldest first, and forgets them.
    pub fn take_effects(&mut self) -> (effects: Vec<Effect>)
        ensures
            effect_models(effects@) == old(self)@.effects,
            final(self)@ == (Machine { effects: Seq::empty(), ..old(self)@ }),
    {
        let mut effects: Vec<Effect> = Vec::new();
        std::mem::swap(&mut self.effects, &mut effects);
        assert(self@.effects =~= Seq::empty());
        effects
    }

    /// Whether the deterministic strategy applies.
    fn is_deterministic(&self) -> (deterministic: bool)
        ensures
            deterministic == self@.deterministic(),
    {
        self.is_completely_normal || self.directives.contains("disable_useless")
    }

    fn bind(&mut self, name: String, value: Value)
        ensures
            final(self)@ == old(self)@.bind(name@, value@),
    {
        self.variables.insert(name, value);
        assert(self@.variables =~= old(self)@.variables.insert(name@, value@));
    }

    fn record(&mut self, effect: Effect)
        ensures
            final(self)@ == old(self)@.record(effect@),
    {
        self.effects.push(effect);
        assert(self@.effects =~= old(self)@.effects.push(effect@));
    }

    fn say(&mut self, text: &str)
        ensures
            final(self)@ == old(self)@.record(EffectView::Say { text: text@ }),
    {
        self.record(Effect::Say { text: String::from_str(text) });
    }

    fn activate(&mut self, name: String)
        ensures
            final(self)@ == old(self)@.activate(name@),
    {
        self.directives.insert(name);
    }

    fn deactivate(&mut self, name: &String)
        ensures
            final(self)@ == old(self)@.deactivate(name@),
    {
        self.directives.remove(name.as_str());
    }

    fn warn_if_unknown(&mut self, name: &String)
        ensures
            final(self)@ == old(self)@.warn_if_unknown(name@),
    {
        if !same_text(name, "disable_useless") && !same_text(name, "experimental") {
            let mut text = String::from_str("Warning: Unknown directive #");
            text.append(name.as_str());
            self.record(Effect::Say { text });
        }
    }

    /// A binary operation on two values, under the strategy that applies
    /// and with the draw that the chaotic strategy takes.
    pub fn evaluate_binary_op(&self, op: BinaryOp, left: Value, right: Value, number: u64) -> (result:
        Result<Value, RuntimeError>)
        ensures
            value_result(result) == (if self@.deterministic() {
                plain_binary(op, left@, right@)
            } else {
                chaotic_binary(self@.config, op, left@, right@, number)
            }),
    {
        if self.is_deterministic() {
            binary_plain(op, &left, &right)
        } else {
            binary_chaotic(&self.config, op, &left, &right, number)
        }
    }

    fn run_binary(&mut self, op: BinaryOp, left: &Value, right: &Value, tape: &Vec<u64>, cursor: usize)
        -> (run: (Result<Value, RuntimeError>, usize))
        ensures
            final(self)@ == old(self)@,
            Self::agrees(
                final(self)@,
                value_result(run.0),
                run.1,
                apply_binary(old(self)@, op, left@, right@, tape@, cursor),
            ),
    {
        if self.is_deterministic() {
            (binary_plain(op, left, right), cursor)
        } else {
            (binary_chaotic(&self.config, op, left, right, draw_at(tape, cursor)), advance(cursor))
        }
    }

    /// That a run ended as an outcome says.
    pub open spec fn agrees<T>(
        machine: Machine,
        result: Result<T, RuntimeErrorView>,
        cursor: usize,
        outcome: Outcome<T>,
    ) -> bool {
        &&& machine == outcome.machine
        &&& result == outcome.result
        &&& cursor == outcome.cursor
    }

    fn run_identifier(&mut self, name: &String, tape: &Vec<u64>, cursor: usize) -> (run: (
        Result<Value, RuntimeError>,
        usize,
    ))
        ensures
            Self::agrees(
                final(self)@,
                value_result(run.0),
                run.1,
                eval_identifier(old(self)@, name@, tape@, cursor),
            ),
    {
        let found = self.variable(name.as_str());
        match found {
            None => (Err(RuntimeError::UndefinedVariable(name.clone())), cursor),
            Some(value) => {
                if self.is_deterministic() {
                    (Ok(value), cursor)
                } else if chance(self.config.identifier_vacation, draw_at(tape, cursor)) {
                    (Err(RuntimeError::UndefinedVariable(name.clone())), advance(cursor))
                } else {
                    (Ok(value), advance(cursor))
                }
            },
        }
    }

    fn ask_round(&mut self)
        ensures
            final(self)@ == (Machine {
                effects: old(self)@.effects + crate::semantics::exit_round(),
                ..old(self)@
            }),
    {
        self.say("🤯 What is the sound of one program looping?");
        self.record(Effect::Sleep { milliseconds: EXIT_PAUSE });
        self.say("🤯 If all programs are useless, is a useless program actually useful?");
        self.record(Effect::Sleep { milliseconds: EXIT_PAUSE });
        self.say("🤯 Do programs dream of electric sheep?");
        self.record(Effect::Sleep { milliseconds: EXIT_PAUSE });
        self.say("🤯 Why do we exit when we can just keep running forever?");
        self.record(Effect::Sleep { milliseconds: EXIT_PAUSE });
        self.say(
            "🤯 Is an infinite loop that never ends more or less infinite than one that does?",
        );
        self.record(Effect::Sleep { milliseconds: EXIT_PAUSE });
        assert(self@.effects =~= old(self)@.effects + crate::semantics::exit_round());
    }

    fn run_exit(&mut self, tape: &Vec<u64>, cursor: usize) -> (run: (
        Result<Value, RuntimeError>,
        usize,
    ))
        ensures
            Self::agrees(
                final(self)@,
                value_result(run.0),
                run.1,
                exit_rounds(
                    Machine {
                        effects: old(self)@.effects + crate::semantics::exit_prelude(),
                        ..old(self)@
                    },
                    0,
                    tape@,
                    cursor,
                ),
            ),
    {
        self.say("🤔 Contemplating the meaning of exit()...");
        self.say("💭 If a program exits but nobody is around to see it, did it really exit?");
        self.say("🌌 Maybe the real exit was the infinite loops we made along the way...");
        assert(self@.effects =~= old(self)@.effects + crate::semantics::exit_prelude());
        let ghost start = self@;
        let mut round: u64 = 0;
        let mut at: usize = cursor;
        while round < self.config.exit_iteration_limit
            invariant
                round <= self.config.exit_iteration_limit,
                start == (Machine {
                    effects: old(self)@.effects + crate::semantics::exit_prelude(),
                    ..old(self)@
                }),
                exit_rounds(start, 0, tape@, cursor) == exit_rounds(self@, round, tape@, at),
            decreases self.config.exit_iteration_limit - round,
        {
            self.ask_round();
            if !self.is_deterministic() {
                let number = draw_at(tape, at);
                at = advance(at);
                if chance(self.config.exit_escape, number) {
                    return (
                        Err(
                            generic_error("Successfully failed to exit. Task failed successfully!"),
                        ),
                        at,
                    );
                }
            }
            round = round + 1;
        }
        (Err(generic_error("Successfully failed to exit. Task failed successfully!")), at)
    }

    fn run_call(&mut self, name: &String, arguments: usize, tape: &Vec<u64>, cursor: usize) -> (run:
        (Result<Value, RuntimeError>, usize))
        ensures
            Self::agrees(
                final(self)@,
                value_result(run.0),
                run.1,
                eval_call(old(self)@, name@, arguments as nat, tape@, cursor),
            ),
    {
        if same_text(name, "exit") {
            if arguments != 0 {
                (
                    Err(generic_error("exit() doesn't need arguments, it won't use them anyway!")),
                    cursor,
                )
            } else {
                self.run_exit(tape, cursor)
            }
        } else if self.is_deterministic() {
            (Ok(Value::Null), cursor)
        } else {
            let roll: u64 = draw_at(tape, cursor) % 100;
            if roll < self.config.call_null as u64 {
                (Ok(Value::Null), advance(cursor))
            } else if roll < self.config.call_null as u64 + self.config.call_task_failed as u64 {
                (Err(RuntimeError::TaskFailedSuccessfully), advance(cursor))
            } else {
                let mut text = String::from_str("Function ");
                text.append(name.as_str());
                text.append(" went to get coffee ☕");
                (Err(RuntimeError::Generic(text)), advance(cursor))
            }
        }
    }

    #[verifier::rlimit(40)]
    fn run_access(&mut self, object: &Value, key: &Value, tape: &Vec<u64>, cursor: usize) -> (run:
        (Result<Value, RuntimeError>, usize))
        ensures
            final(self)@ == old(self)@,
            Self::agrees(
                final(self)@,
                value_result(run.0),
                run.1,
                apply_access(old(self)@, object@, key@, tape@, cursor),
            ),
    {
        if self.is_deterministic() {
            return (access_plain(object, key), cursor);
        }
        match object {
            Value::Object { fields } => match key {
                Value::String { value } => {
                    if chance(self.config.object_swap, draw_at(tape, cursor)) && fields.len() >= 2 {
                        let first = advance(cursor);
                        let second = advance(first);
                        let positions = choose_two(
                            fields.len(),
                            draw_at(tape, first),
                            draw_at(tape, second),
                        );
                        let swapped = swap_field_values(fields, positions.0, positions.1);
                        assert(field_models(swapped@) == chaotic_object_fields(
                            self@.config,
                            field_models(fields@),
                            tape@,
                            cursor,
                        ));
                        (Err(RuntimeError::ObjectChaos), advance(second))
                    } else {
                        (Err(RuntimeError::ObjectChaos), advance(cursor))
                    }
                },
                _ => (Err(access_kind_error(object)), cursor),
            },
            Value::Array { values } => match key {
                Value::Number { value } => {
                    let second = advance(cursor);
                    if chance(self.config.array_vacation, draw_at(tape, cursor)) {
                        (Err(RuntimeError::ArrayVacation), second)
                    } else if chance(self.config.array_random_element, draw_at(tape, second)) {
                        let third = advance(second);
                        if values.len() == 0 {
                            assert(value_models(values@).len() == 0);
                            (Err(generic_error("Array is empty, just like my promises!")), third)
                        } else {
                            let at: usize = (draw_at(tape, third) % (values.len() as u64)) as usize;
                            let chosen = values[at].clone();
                            assert(value_models(values@)[at as int] == values@[at as int]@);
                            (Ok(chosen), advance(third))
                        }
                    } else {
                        (element_at(values, *value), advance(second))
                    }
                },
                _ => (Err(access_kind_error(object)), cursor),
            },
            _ => (Err(access_kind_error(object)), cursor),
        }
    }

    fn run_pause(&mut self, tape: &Vec<u64>, cursor: usize) -> (run: (
        Result<u64, RuntimeError>,
        usize,
    ))
        ensures
            Self::agrees(
                final(self)@,
                match run.0 {
                    Ok(delay) => Ok(delay),
                    Err(error) => Err(error@),
                },
                run.1,
                promise_pause(old(self)@, tape@, cursor),
            ),
    {
        if self.is_deterministic() {
            self.record(Effect::Sleep { milliseconds: PROMISE_DELAY_MIN });
            (Ok(PROMISE_DELAY_MIN), cursor)
        } else if chance(self.config.promise_rejection, draw_at(tape, cursor)) {
            (Err(RuntimeError::PromiseRejected), advance(cursor))
        } else {
            let second = advance(cursor);
            let delay: u64 = PROMISE_DELAY_MIN + draw_at(tape, second) % PROMISE_DELAY_SPAN;
            self.record(Effect::Sleep { milliseconds: delay });
            (Ok(delay), advance(second))
        }
    }

    fn run_await(&mut self, promise: Value, tape: &Vec<u64>, cursor: usize) -> (run: (
        Result<Value, RuntimeError>,
        usize,
    ))
        ensures
            final(self)@ == old(self)@,
            Self::agrees(
                final(self)@,
                value_result(run.0),
                run.1,
                resolve_await(old(self)@, promise@, tape@, cursor),
            ),
    {
        match promise {
            Value::Promise { value, resolved } => {
                if !resolved {
                    (Err(RuntimeError::PromiseRejected), cursor)
                } else if self.is_deterministic() {
                    (Ok(*value), cursor)
                } else if chance(self.config.await_changed_mind, draw_at(tape, cursor)) {
                    (Ok(text_value("Promise changed its mind 🤔")), advance(cursor))
                } else {
                    (Ok(*value), advance(cursor))
                }
            },
            _ => (
                Err(generic_error("Can't await something that isn't a promise! 🤯")),
                cursor,
            ),
        }
    }

    fn run_print(&mut self, value: Value, tape: &Vec<u64>, cursor: usize) -> (run: (
        Result<(), RuntimeError>,
        usize,
    ))
        ensures
            Self::agrees(
                final(self)@,
                unit_result(run.0),
                run.1,
                print_value(old(self)@, value@, tape@, cursor),
            ),
    {
        if self.is_deterministic() {
            self.record(Effect::Print { value });
            return (Ok(()), cursor);
        }
        let mut at = advance(cursor);
        if chance(self.config.print_browser, draw_at(tape, cursor)) {
            if self.random_urls.len() == 0 || !self.browser_available {
                assert(self@.urls.len() == 0 || !self@.browser_available);
                return (Err(RuntimeError::BrowserError), at);
            }
            let choice: usize = (draw_at(tape, at) % (self.random_urls.len() as u64)) as usize;
            let url = self.random_urls[choice].clone();
            assert(self@.urls.len() == self.random_urls.len());
            assert(self@.urls[choice as int] == url@);
            self.record(Effect::OpenUrl { url });
            at = advance(at);
        }
        if chance(self.config.print_failure, draw_at(tape, at)) {
            (Err(RuntimeError::StylePoints), advance(at))
        } else {
            self.record(Effect::Print { value });
            (Ok(()), advance(at))
        }
    }

    fn run_let(&mut self, name: &String, value: Value, tape: &Vec<u64>, cursor: usize) -> (run: (
        Result<(), RuntimeError>,
        usize,
    ))
        ensures
            Self::agrees(
                final(self)@,
                unit_result(run.0),
                run.1,
                let_value(old(self)@, name@, value@, tape@, cursor),
            ),
    {
        if self.is_deterministic() {
            self.bind(name.clone(), value);
            (Ok(()), cursor)
        } else if chance(self.config.let_failure, draw_at(tape, cursor)) {
            (Err(RuntimeError::UndefinedVariable(name.clone())), advance(cursor))
        } else {
            self.bind(name.clone(), value);
            (Ok(()), advance(cursor))
        }
    }

    fn run_declare(
        &mut self,
        asynchronous: bool,
        name: &String,
        parameters: &Vec<String>,
        tape: &Vec<u64>,
        cursor: usize,
    ) -> (run: (Result<(), RuntimeError>, usize))
        ensures
            Self::agrees(
                final(self)@,
                unit_result(run.0),
                run.1,
                declare(
                    old(self)@,
                    asynchronous,
                    name@,
                    text_models(parameters@),
                    tape@,
                    cursor,
                ),
            ),
    {
        if !asynchronous {
            self.bind(name.clone(), make_descriptor("function", parameters));
            (Ok(()), cursor)
        } else if self.is_deterministic() {
            self.bind(name.clone(), make_descriptor("async_function", parameters));
            (Ok(()), cursor)
        } else if chance(self.config.async_declaration_failure, draw_at(tape, cursor)) {
            (Err(RuntimeError::AsyncTimeout), advance(cursor))
        } else {
            self.bind(name.clone(), make_descriptor("async_function", parameters));
            (Ok(()), advance(cursor))
        }
    }

    fn run_save(&mut self, tape: &Vec<u64>, cursor: usize) -> (run: (
        Result<(), RuntimeError>,
        usize,
    ))
        ensures
            final(self)@ == old(self)@,
            Self::agrees(final(self)@, unit_result(run.0), run.1, save(old(self)@, tape@, cursor)),
    {
        if self.is_deterministic() {
            (Err(RuntimeError::SaveError), cursor)
        } else {
            let kind: u64 = draw_at(tape, cursor) % 3;
            if kind == 0 {
                (Err(RuntimeError::SaveError), advance(cursor))
            } else if kind == 1 {
                (Err(RuntimeError::TaskFailedSuccessfully), advance(cursor))
            } else {
                (Err(RuntimeError::StylePoints), advance(cursor))
            }
        }
    }

    fn run_await_done(&mut self, tape: &Vec<u64>, cursor: usize) -> (run: (
        Result<(), RuntimeError>,
        usize,
    ))
        ensures
            final(self)@ == old(self)@,
            Self::agrees(
                final(self)@,
                unit_result(run.0),
                run.1,
                await_done(old(self)@, tape@, cursor),
            ),
    {
        if self.is_deterministic() {
            if self.config.await_times_out {
                (Err(RuntimeError::AsyncTimeout), cursor)
            } else {
                (Ok(()), cursor)
            }
        } else if chance(self.config.await_failure, draw_at(tape, cursor)) {
            (Err(RuntimeError::AsyncTimeout), advance(cursor))
        } else {
            (Ok(()), advance(cursor))
        }
    }

    fn run_directive(&mut self, name: &String)
        ensures
            final(self)@ == declare_directive(old(self)@, name@),
    {
        if same_text(name, "disable_useless") || same_text(name, "experimental") {
            self.activate(name.clone());
        } else {
            let mut text = String::from_str("Warning: Unknown directive #");
            text.append(name.as_str());
            self.record(Effect::Say { text });
        }
    }

    fn run_caught(&mut self, variable: &String, error: &RuntimeError, tape: &Vec<u64>, cursor: usize)
        -> (next: usize)
        ensures
            Self::agrees(
                final(self)@,
                Ok(()),
                next,
                caught(old(self)@, variable@, error@, tape@, cursor),
            ),
    {
        if self.is_deterministic() {
            self.bind(variable.clone(), Value::String { value: error.to_string() });
            cursor
        } else if chance(self.config.catch_wrong_error, draw_at(tape, cursor)) {
            self.bind(variable.clone(), text_value("Caught the wrong error! 🎭"));
            advance(cursor)
        } else {
            self.bind(variable.clone(), Value::String { value: error.to_string() });
            advance(cursor)
        }
    }

    #[verifier::loop_isolation(false)]
    fn run_elements(&mut self, items: &Vec<Box<Expression>>, tape: &Vec<u64>, cursor: usize) -> (run:
        (Vec<Value>, usize))
        ensures
            ({
                let gathered = eval_elements(
                    old(self)@,
                    crate::ast::element_models(items@),
                    0,
                    Seq::empty(),
                    tape@,
                    cursor,
                );
                &&& final(self)@ == gathered.machine
                &&& value_models(run.0@) == gathered.value
                &&& run.1 == gathered.cursor
            }),
        decreases items, 0nat,
    {
        let ghost models = crate::ast::element_models(items@);
        let mut values: Vec<Value> = Vec::new();
        let mut at: usize = cursor;
        let mut i: usize = 0;
        assert(value_models(values@) =~= Seq::empty());
        while i < items.len()
            invariant
                i <= items.len(),
                models.len() == items.len(),
                eval_elements(old(self)@, models, 0, Seq::empty(), tape@, cursor) == eval_elements(
                    self@,
                    models,
                    i as nat,
                    value_models(values@),
                    tape@,
                    at,
                ),
            decreases items.len() - i,
        {
            assert(models[i as int] == (*items@[i as int]).model());
            let ghost before = value_models(values@);
            let run = self.run_expression(&items[i], tape, at);
            match run.0 {
                Ok(value) => {
                    values.push(value);
                    assert(value_models(values@) =~= before.push(value@));
                },
                Err(_) => {},
            }
            at = run.1;
            i = i + 1;
        }
        (values, at)
    }

    #[verifier::loop_isolation(false)]
    fn run_pairs(
        &mut self,
        pairs: &Vec<(String, Box<Expression>)>,
        tape: &Vec<u64>,
        cursor: usize,
    ) -> (run: (Vec<(String, Value)>, usize))
        ensures
            ({
                let gathered = eval_pairs(
                    old(self)@,
                    crate::ast::pair_models(pairs@),
                    0,
                    Seq::empty(),
                    tape@,
                    cursor,
                );
                &&& final(self)@ == gathered.machine
                &&& field_models(run.0@) == gathered.value
                &&& run.1 == gathered.cursor
            }),
        decreases pairs, 0nat,
    {
        let ghost models = crate::ast::pair_models(pairs@);
        let mut fields: Vec<(String, Value)> = Vec::new();
        let mut at: usize = cursor;
        let mut i: usize = 0;
        assert(field_models(fields@) =~= Seq::empty());
        while i < pairs.len()
            invariant
                i <= pairs.len(),
                models.len() == pairs.len(),
                eval_pairs(old(self)@, models, 0, Seq::empty(), tape@, cursor) == eval_pairs(
                    self@,
                    models,
                    i as nat,
                    field_models(fields@),
                    tape@,
                    at,
                ),
            decreases pairs.len() - i,
        {
            assert(models[i as int] == (pairs@[i as int].0@, (*pairs@[i as int].1).model()));
            let pair = &pairs[i];
            let run = self.run_expression(&pair.1, tape, at);
            match run.0 {
                Ok(value) => {
                    set_field(&mut fields, pair.0.clone(), value);
                },
                Err(_) => {},
            }
            at = run.1;
            i = i + 1;
        }
        (fields, at)
    }

    fn run_as_written(&mut self, literal: &Literal, tape: &Vec<u64>, cursor: usize) -> (run: (
        Result<Value, RuntimeError>,
        usize,
    ))
        ensures
            Self::agrees(
                final(self)@,
                value_result(run.0),
                run.1,
                eval_as_written(old(self)@, literal@, tape@, cursor),
            ),
        decreases literal, 0nat,
    {
        match literal {
            Literal::String(text) => (Ok(Value::String { value: text.clone() }), cursor),
            Literal::Number(number) => (Ok(Value::Number { value: *number }), cursor),
            Literal::Boolean(flag) => (Ok(Value::Boolean { value: *flag }), cursor),
            Literal::Null => (Ok(Value::Null), cursor),
            Literal::Array(items) => {
                let run = self.run_elements(items, tape, cursor);
                (Ok(Value::Array { values: run.0 }), run.1)
            },
            Literal::Object(pairs) => {
                let run = self.run_pairs(pairs, tape, cursor);
                (Ok(Value::Object { fields: run.0 }), run.1)
            },
        }
    }

    fn run_literal(&mut self, literal: &Literal, tape: &Vec<u64>, cursor: usize) -> (run: (
        Result<Value, RuntimeError>,
        usize,
    ))
        ensures
            Self::agrees(
                final(self)@,
                value_result(run.0),
                run.1,
                eval_literal(old(self)@, literal@, tape@, cursor),
            ),
        decreases literal, 1nat,
    {
        if self.is_deterministic() {
            return self.run_as_written(literal, tape, cursor);
        }
        let number = draw_at(tape, cursor);
        let second = advance(cursor);
        match literal {
            Literal::Boolean(flag) => {
                if chance(self.config.boolean_literal_chaos, number) {
                    (Ok(boolean_in_chaos(*flag, draw_at(tape, second))), advance(second))
                } else {
                    (Ok(Value::Boolean { value: *flag }), second)
                }
            },
            Literal::Number(value) => {
                if chance(self.config.number_literal_chaos, number) {
                    (Ok(Value::Boolean { value: *value != 0 }), second)
                } else {
                    (Ok(Value::Number { value: *value }), second)
                }
            },
            _ => {
                if chance(self.config.other_literal_chaos, number) {
                    (Ok(placeholder_value(draw_at(tape, second))), advance(second))
                } else {
                    self.run_as_written(literal, tape, second)
                }
            },
        }
    }

    #[verifier::rlimit(40)]
    fn run_expression(&mut self, expression: &Expression, tape: &Vec<u64>, cursor: usize) -> (run: (
        Result<Value, RuntimeError>,
        usize,
    ))
        ensures
            Self::agrees(
                final(self)@,
                value_result(run.0),
                run.1,
                eval_expression(old(self)@, expression@, tape@, cursor),
            ),
        decreases expression, 1nat,
    {
        match expression {
            Expression::Literal(literal) => self.run_literal(literal, tape, cursor),
            Expression::Identifier(name) => self.run_identifier(name, tape, cursor),
            Expression::BinaryOp { .. } => self.run_operation(expression, tape, cursor),
            Expression::FunctionCall { name, arguments } => {
                assert(crate::ast::expression_models(arguments@).len() == arguments.len());
                self.run_call(name, arguments.len(), tape, cursor)
            },
            Expression::Access { .. } => self.run_lookup(expression, tape, cursor),
            Expression::Promise { .. } => self.run_promise(expression, tape, cursor),
            Expression::Await { promise } => {
                let inner = self.run_expression(promise, tape, cursor);
                match inner.0 {
                    Err(error) => (Err(error), inner.1),
                    Ok(awaited) => self.run_await(awaited, tape, inner.1),
                }
            },
        }
    }

    fn run_operation(&mut self, expression: &Expression, tape: &Vec<u64>, cursor: usize) -> (run: (
        Result<Value, RuntimeError>,
        usize,
    ))
        requires
            expression is BinaryOp,
        ensures
            Self::agrees(
                final(self)@,
                value_result(run.0),
                run.1,
                eval_expression(old(self)@, expression@, tape@, cursor),
            ),
        decreases expression, 0nat,
    {
        match expression {
            Expression::BinaryOp { op, left, right } => {
                let first = self.run_expression(left, tape, cursor);
                match first.0 {
                    Err(error) => (Err(error), first.1),
                    Ok(left_value) => {
                        let second = self.run_expression(right, tape, first.1);
                        match second.0 {
                            Err(error) => (Err(error), second.1),
                            Ok(right_value) => self.run_binary(
                                *op,
                                &left_value,
                                &right_value,
                                tape,
                                second.1,
                            ),
                        }
                    },
                }
            },
            _ => (Ok(Value::Null), cursor),
        }
    }

    fn run_lookup(&mut self, expression: &Expression, tape: &Vec<u64>, cursor: usize) -> (run: (
        Result<Value, RuntimeError>,
        usize,
    ))
        requires
            expression is Access,
        ensures
            Self::agrees(
                final(self)@,
                value_result(run.0),
                run.1,
                eval_expression(old(self)@, expression@, tape@, cursor),
            ),
        decreases expression, 0nat,
    {
        match expression {
            Expression::Access { object, key } => {
                let first = self.run_expression(object, tape, cursor);
                match first.0 {
                    Err(error) => (Err(error), first.1),
                    Ok(object_value) => {
                        let second = self.run_expression(key, tape, first.1);
                        match second.0 {
                            Err(error) => (Err(error), second.1),
                            Ok(key_value) => self.run_access(
                                &object_value,
                                &key_value,
                                tape,
                                second.1,
                            ),
                        }
                    },
                }
            },
            _ => (Ok(Value::Null), cursor),
        }
    }

    #[verifier::rlimit(40)]
    fn run_promise(&mut self, expression: &Expression, tape: &Vec<u64>, cursor: usize) -> (run: (
        Result<Value, RuntimeError>,
        usize,
    ))
        requires
            expression is Promise,
        ensures
            Self::agrees(
                final(self)@,
                value_result(run.0),
                run.1,
                eval_expression(old(self)@, expression@, tape@, cursor),
            ),
        decreases expression, 0nat,
    {
        match expression {
            Expression::Promise { value, timeout } => {
                let inner = self.run_expression(value, tape, cursor);
                let promised = match inner.0 {
                    Err(error) => {
                        return (Err(error), inner.1);
                    },
                    Ok(promised) => promised,
                };
                let pause = self.run_pause(tape, inner.1);
                let delay = match pause.0 {
                    Err(error) => {
                        return (Err(error), pause.1);
                    },
                    Ok(delay) => delay,
                };
                match timeout {
                    None => (
                        Ok(Value::Promise { value: Box::new(promised), resolved: true }),
                        pause.1,
                    ),
                    Some(limit) => {
                        let bound = self.run_expression(limit, tape, pause.1);
                        match bound.0 {
                            Err(error) => (Err(error), bound.1),
                            Ok(limit_value) => {
                                if is_too_late(delay, &limit_value) {
                                    (Err(RuntimeError::AsyncTimeout), bound.1)
                                } else {
                                    (
                                        Ok(
                                            Value::Promise {
                                                value: Box::new(promised),
                                                resolved: true,
                                            },
                                        ),
                                        bound.1,
                                    )
                                }
                            },
                        }
                    },
                }
            },
            _ => (Ok(Value::Null), cursor),
        }
    }

    #[verifier::loop_isolation(false)]
    fn run_block(&mut self, statements: &Vec<Statement>, from: usize, tape: &Vec<u64>, cursor: usize)
        -> (run: (Result<(), RuntimeError>, usize))
        ensures
            Self::agrees(
                final(self)@,
                unit_result(run.0),
                run.1,
                exec_block(old(self)@, statement_models(statements@), from as nat, tape@, cursor),
            ),
        decreases statements, 0nat,
    {
        let ghost models = statement_models(statements@);
        let mut at: usize = cursor;
        let mut i: usize = from;
        while i < statements.len()
            invariant
                models.len() == statements.len(),
                exec_block(old(self)@, models, from as nat, tape@, cursor) == exec_block(
                    self@,
                    models,
                    i as nat,
                    tape@,
                    at,
                ),
            decreases statements.len() - i,
        {
            assert(models[i as int] == statements@[i as int].model());
            let run = self.run_statement(&statements[i], tape, at);
            match run.0 {
                Err(error) => {
                    return (Err(error), run.1);
                },
                Ok(_) => {},
            }
            at = run.1;
            i = i + 1;
        }
        (Ok(()), at)
    }

    #[verifier::rlimit(40)]
    fn run_statement(&mut self, statement: &Statement, tape: &Vec<u64>, cursor: usize) -> (run: (
        Result<(), RuntimeError>,
        usize,
    ))
        ensures
            Self::agrees(
                final(self)@,
                unit_result(run.0),
                run.1,
                exec_statement(old(self)@, statement@, tape@, cursor),
            ),
        decreases statement, 0nat,
    {
        match statement {
            Statement::Print { value } => {
                let printed = self.run_expression(value, tape, cursor);
                match printed.0 {
                    Err(error) => (Err(error), printed.1),
                    Ok(result) => self.run_print(result, tape, printed.1),
                }
            },
            Statement::Let { name, value } => {
                let bound = self.run_expression(value, tape, cursor);
                match bound.0 {
                    Err(error) => (Err(error), bound.1),
                    Ok(result) => self.run_let(name, result, tape, bound.1),
                }
            },
            Statement::Expression(expression) => {
                let run = self.run_expression(expression, tape, cursor);
                match run.0 {
                    Err(error) => (Err(error), run.1),
                    Ok(_) => (Ok(()), run.1),
                }
            },
            Statement::If { condition, then_branch, else_branch } => {
                if self.is_deterministic() {
                    let tested = self.run_expression(condition, tape, cursor);
                    match tested.0 {
                        Err(error) => (Err(error), tested.1),
                        Ok(Value::Boolean { value: true }) => self.run_block(
                            then_branch,
                            0,
                            tape,
                            tested.1,
                        ),
                        Ok(Value::Boolean { value: false }) => match else_branch {
                            Some(statements) => self.run_block(statements, 0, tape, tested.1),
                            None => (Ok(()), tested.1),
                        },
                        Ok(_) => (Err(generic_error("Condition must be a boolean")), tested.1),
                    }
                } else {
                    match else_branch {
                        Some(statements) => {
                            if chance(self.config.if_failure, draw_at(tape, cursor)) {
                                (Err(RuntimeError::CreativeBreakage), advance(cursor))
                            } else {
                                self.run_block(statements, 0, tape, advance(cursor))
                            }
                        },
                        None => (Ok(()), cursor),
                    }
                }
            },
            Statement::Loop { body } => {
                assert(statement_models(body@).len() == body.len());
                if self.is_deterministic() {
                    if body.len() > 0 {
                        assert(statement_models(body@)[0] == body@[0].model());
                        self.run_statement(&body[0], tape, cursor)
                    } else {
                        (Ok(()), cursor)
                    }
                } else if chance(self.config.loop_failure, draw_at(tape, cursor)) {
                    (Err(RuntimeError::TaskFailedSuccessfully), advance(cursor))
                } else if body.len() > 0 {
                    assert(statement_models(body@)[0] == body@[0].model());
                    self.run_statement(&body[0], tape, advance(cursor))
                } else {
                    (Ok(()), advance(cursor))
                }
            },
            Statement::Function { name, parameters, body } => self.run_declare(
                false,
                name,
                parameters,
                tape,
                cursor,
            ),
            Statement::AsyncFunction { name, parameters, body } => self.run_declare(
                true,
                name,
                parameters,
                tape,
                cursor,
            ),
            Statement::TryCatch { try_block, error_var, catch_block } => {
                let tried = self.run_block(try_block, 0, tape, cursor);
                match tried.0 {
                    Ok(_) => (Ok(()), tried.1),
                    Err(error) => {
                        let ready = self.run_caught(error_var, &error, tape, tried.1);
                        self.run_block(catch_block, 0, tape, ready)
                    },
                }
            },
            Statement::Module { name, body } => self.run_block(body, 0, tape, cursor),
            Statement::Use { path } => (Ok(()), cursor),
            Statement::Directive { name } => {
                self.run_directive(name);
                (Ok(()), cursor)
            },
            Statement::Save { filename } => self.run_save(tape, cursor),
            Statement::Await { expression } => {
                let awaited = self.run_expression(expression, tape, cursor);
                match awaited.0 {
                    Err(error) => (Err(error), awaited.1),
                    Ok(_) => self.run_await_done(tape, awaited.1),
                }
            },
            Statement::Attributed { name, statement } => {
                self.warn_if_unknown(name);
                self.activate(name.clone());
                let inner = self.run_statement(statement, tape, cursor);
                self.deactivate(name);
                inner
            },
        }
    }
}

/// What a boolean literal becomes when chaos strikes it.
fn boolean_in_chaos(flag: bool, number: u64) -> (value: Value)
    ensures
        value@ == chaotic_boolean(flag, number),
{
    if number % 3 == 0 {
        Value::Boolean { value: !flag }
    } else if number % 3 == 1 {
        if flag {
            text_value("true")
        } else {
            text_value("false")
        }
    } else {
        Value::Number {
            value: if flag {
                1
            } else {
                0
            },
        }
    }
}

/// What a literal that is neither a boolean nor a number becomes when
/// chaos strikes it.
fn placeholder_value(number: u64) -> (value: Value)
    ensures
        value@ == placeholder(number),
{
    if number % 5 == 0 {
        text_value("null and void")
    } else if number % 5 == 1 {
        Value::Number { value: 0 }
    } else if number % 5 == 2 {
        Value::Boolean { value: false }
    } else if number % 5 == 3 {
        let mut values: Vec<Value> = Vec::new();
        values.push(Value::Null);
        assert(value_models(values@) =~= seq![ValueView::Null]);
        Value::Array { values }
    } else {
        let fields: Vec<(String, Value)> = Vec::new();
        assert(field_models(fields@) =~= Seq::empty());
        Value::Object { fields }
    }
}

/// Whether a promise that took `delay` milliseconds is too late for the
/// timeout `limit`.
fn is_too_late(delay: u64, limit: &Value) -> (late: bool)
    ensures
        late == too_late(delay, limit@),
{
    match limit {
        Value::Number { value } => *value >= 0 && delay > *value as u64,
        _ => false,
    }
}

/// The value that stands for a declared function.
fn make_descriptor(kind: &str, parameters: &Vec<String>) -> (value: Value)
    ensures
        value@ == descriptor(kind@, text_models(parameters@)),
{
    let mut names: Vec<Value> = Vec::new();
    let mut i: usize = 0;
    while i < parameters.len()
        invariant
            i <= parameters.len(),
            names.len() == i,
            forall|k: int|
                0 <= k < i ==> (#[trigger] names@[k])@ == (ValueView::String {
                    value: parameters@[k]@,
                }),
        decreases parameters.len() - i,
    {
        names.push(Value::String { value: parameters[i].clone() });
        i = i + 1;
    }
    let mut fields: Vec<(String, Value)> = Vec::new();
    fields.push((String::from_str("type"), text_value(kind)));
    fields.push((String::from_str("params"), Value::Array { values: names }));
    let ghost wanted = descriptor(kind@, text_models(parameters@));
    assert(value_models(names@) =~= wanted->Object_fields[1].1->Array_values);
    assert(field_models(fields@) =~= wanted->Object_fields);
    Value::Object { fields }
}

/// Whether a statement is the directive that switches deterministic
/// mode on for good.
fn switches_mode(statement: &Statement) -> (switches: bool)
    ensures
        switches == (statement@ == (crate::ast::StatementView::Directive {
            name: "disable_all_useless_shit"@,
        })),
{
    match statement {
        Statement::Directive { name } => same_text(name, "disable_all_useless_shit"),
        _ => false,
    }
}

impl Interpreter {
    /// That a run left the machine and gave the result that an outcome
    /// says.
    pub open spec fn ended<T>(
        machine: Machine,
        result: Result<T, RuntimeErrorView>,
        outcome: Outcome<T>,
    ) -> bool {
        machine == outcome.machine && result == outcome.result
    }

    /// Evaluates an expression with the draws of the given tape, from its
    /// beginning.
    pub fn evaluate_expression_with(&mut self, expression: &Expression, tape: &Vec<u64>) -> (result:
        Result<Value, RuntimeError>)
        ensures
            Self::ended(
                final(self)@,
                value_result(result),
                eval_expression(old(self)@, expression@, tape@, 0),
            ),
    {
        self.run_expression(expression, tape, 0).0
    }

    /// Evaluates an expression with fresh random draws: there is a tape
    /// with which the evaluation is that of the semantics. The tape holds
    /// as many draws as the expression can take, but no more than
    /// [`TAPE_LIMIT`](crate::tape::TAPE_LIMIT); where the expression can
    /// take more, every draw after those is 0.
    pub fn evaluate_expression(&mut self, expr: Expression) -> (result: Result<Value, RuntimeError>)
        ensures
            exists|tape: Seq<u64>|
                tape.len() == tape_length(
                    capped(expression_draws(old(self)@.config.exit_iteration_limit, expr@)) as nat,
                ) && Self::ended(
                    final(self)@,
                    value_result(result),
                    #[trigger] eval_expression(old(self)@, expr@, tape, 0),
                ),
    {
        let tape = fresh_tape(count_expression_draws(self.config.exit_iteration_limit, &expr));
        self.evaluate_expression_with(&expr, &tape)
    }

    /// Evaluates a literal with the draws of the given tape, from its
    /// beginning. A literal always has a value.
    pub fn evaluate_literal_with(&mut self, literal: &Literal, tape: &Vec<u64>) -> (value: Value)
        ensures
            Self::ended(
                final(self)@,
                Ok(value@),
                eval_literal(old(self)@, literal@, tape@, 0),
            ),
    {
        match self.run_literal(literal, tape, 0).0 {
            Ok(value) => value,
            Err(_) => Value::Null,
        }
    }

    /// Evaluates a literal with fresh random draws: there is a tape with
    /// which the evaluation is that of the semantics. The tape holds as
    /// many draws as the literal can take, but no more than
    /// [`TAPE_LIMIT`](crate::tape::TAPE_LIMIT); where the literal can
    /// take more, every draw after those is 0.
    pub fn evaluate_literal(&mut self, lit: Literal) -> (value: Value)
        ensures
            exists|tape: Seq<u64>|
                tape.len() == tape_length(
                    capped(literal_draws(old(self)@.config.exit_iteration_limit, lit@)) as nat,
                ) && Self::ended(
                    final(self)@,
                    Ok(value@),
                    #[trigger] eval_literal(old(self)@, lit@, tape, 0),
                ),
    {
        let expression = Expression::Literal(lit);
        let tape = fresh_tape(
            count_expression_draws(self.config.exit_iteration_limit, &expression),
        );
        match &expression {
            Expression::Literal(literal) => self.evaluate_literal_with(literal, &tape),
            _ => Value::Null,
        }
    }

    /// Executes a statement with the draws of the given tape, from its
    /// beginning.
    pub fn execute_statement_with(&mut self, statement: &Statement, tape: &Vec<u64>) -> (result:
        Result<(), RuntimeError>)
        ensures
            Self::ended(
                final(self)@,
                unit_result(result),
                exec_statement(old(self)@, statement@, tape@, 0),
            ),
    {
        self.run_statement(statement, tape, 0).0
    }

    /// Executes a statement with fresh random draws: there is a tape with
    /// which the execution is that of the semantics. The tape holds as
    /// many draws as the statement can take, but no more than
    /// [`TAPE_LIMIT`](crate::tape::TAPE_LIMIT); where the statement can
    /// take more, every draw after those is 0.
    pub fn execute_statement(&mut self, statement: Statement) -> (result: Result<
        (),
        RuntimeError,
    >)
        ensures
            exists|tape: Seq<u64>|
                tape.len() == tape_length(
                    capped(
                        statement_draws(old(self)@.config.exit_iteration_limit, statement@),
                    ) as nat,
                ) && Self::ended(
                    final(self)@,
                    unit_result(result),
                    #[trigger] exec_statement(old(self)@, statement@, tape, 0),
                ),
    {
        let tape = fresh_tape(count_statement_draws(self.config.exit_iteration_limit, &statement));
        self.execute_statement_with(&statement, &tape)
    }

    /// Runs a program with the draws of the given tape, from its
    /// beginning.
    pub fn interpret_with(&mut self, program: &Program, tape: &Vec<u64>) -> (result: Result<
        (),
        RuntimeError,
    >)
        ensures
            Self::ended(
                final(self)@,
                unit_result(result),
                crate::semantics::interpret(old(self)@, statement_models(program@), tape@, 0),
            ),
    {
        let ghost models = statement_models(program@);
        assert(models.len() == program.len());
        if program.len() > 0 {
            assert(models[0] == program@[0].model());
            if switches_mode(&program[0]) {
                self.is_completely_normal = true;
                return self.run_block(program, 1, tape, 0).0;
            }
        }
        if self.is_completely_normal {
            return self.run_block(program, 0, tape, 0).0;
        }
        if chance(self.config.startup_failure, draw_at(tape, 0)) {
            return Err(RuntimeError::Teapot);
        }
        let ran = self.run_block(program, 0, tape, advance(0));
        match ran.0 {
            Err(error) => Err(error),
            Ok(_) => {
                if chance(self.config.shutdown_failure, draw_at(tape, ran.1)) {
                    Err(RuntimeError::PerfectlyWrong)
                } else {
                    Ok(())
                }
            },
        }
    }

    /// Runs a program with fresh random draws: there is a tape with which
    /// the run is that of the semantics. The tape holds as many draws as
    /// the program can take, but no more than
    /// [`TAPE_LIMIT`](crate::tape::TAPE_LIMIT). Where the program can take
    /// more, as it can with a very large limit for `exit()`, every draw
    /// after those is 0: from there on every event with a probability
    /// above 0 happens.
    pub fn interpret(&mut self, program: Program) -> (result: Result<(), RuntimeError>)
        ensures
            exists|tape: Seq<u64>|
                tape.len() == tape_length(
                    capped(
                        program_draws(
                            old(self)@.config.exit_iteration_limit,
                            statement_models(program@),
                        ),
                    ) as nat,
                ) && Self::ended(
                    final(self)@,
                    unit_result(result),
                    #[trigger] crate::semantics::interpret(
                        old(self)@,
                        statement_models(program@),
                        tape,
                        0,
                    ),
                ),
    {
        let tape = fresh_tape(count_program_draws(self.config.exit_iteration_limit, &program));
        self.interpret_with(&program, &tape)
    }
}

} // verus!
