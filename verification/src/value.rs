//! Runtime values, runtime errors and the side effects a program asks for.

use vstd::prelude::*;
use vstd::string::StringExecFns;

verus! {

/// Appending one character to a string: `String::push` of the standard
/// library. The contract says that the string afterwards is the string
/// before with the character added at its end.
pub assume_specification[ std::string::String::push ](text: &mut std::string::String, ch: char)
    ensures
        final(text)@ == old(text)@.push(ch),
;

/// A value produced by evaluation.
#[derive(Debug, PartialEq)]
#[allow(inconsistent_fields)]
pub enum Value {
    /// A string.
    String {
        /// The characters.
        value: String,
    },
    /// A 64-bit signed number.
    Number {
        /// The number.
        value: i64,
    },
    /// A boolean.
    Boolean {
        /// The truth value.
        value: bool,
    },
    /// An array of values.
    Array {
        /// The elements, in order.
        values: Vec<Value>,
    },
    /// An object: named fields in the order in which they were first set.
    Object {
        /// The fields.
        fields: Vec<(String, Value)>,
    },
    /// A promise.
    Promise {
        /// The promised value.
        value: Box<Value>,
        /// Whether the promise has resolved.
        resolved: bool,
    },
    /// The null value.
    Null,
}

/// Model of a [`Value`].
#[allow(inconsistent_fields)]
pub ghost enum ValueView {
    String { value: Seq<char> },
    Number { value: i64 },
    Boolean { value: bool },
    Array { values: Seq<ValueView> },
    Object { fields: Seq<(Seq<char>, ValueView)> },
    Promise { value: Box<ValueView>, resolved: bool },
    Null,
}

/// The models of a sequence of values.
pub open spec fn value_models(items: Seq<Value>) -> Seq<ValueView>
    decreases items,
{
    Seq::new(
        items.len(),
        |i: int|
            if 0 <= i < items.len() {
                items[i].model()
            } else {
                arbitrary()
            },
    )
}

/// The models of the fields of an object.
pub open spec fn field_models(items: Seq<(String, Value)>) -> Seq<(Seq<char>, ValueView)>
    decreases items,
{
    Seq::new(
        items.len(),
        |i: int|
            if 0 <= i < items.len() {
                (items[i].0@, items[i].1.model())
            } else {
                arbitrary()
            },
    )
}

impl Value {
    /// The value as a mathematical value.
    pub open spec fn model(&self) -> ValueView
        decreases self,
    {
        match self {
            Value::String { value } => ValueView::String { value: value@ },
            Value::Number { value } => ValueView::Number { value: *value },
            Value::Boolean { value } => ValueView::Boolean { value: *value },
            Value::Array { values } => ValueView::Array { values: value_models(values@) },
            Value::Object { fields } => ValueView::Object { fields: field_models(fields@) },
            Value::Promise { value, resolved } => ValueView::Promise {
                value: Box::new((**value).model()),
                resolved: *resolved,
            },
            Value::Null => ValueView::Null,
        }
    }
}

impl View for Value {
    type V = ValueView;

    open spec fn view(&self) -> ValueView {
        self.model()
    }
}

#[verifier::loop_isolation(false)]
fn copy_values(items: &Vec<Value>) -> (copy: Vec<Value>)
    ensures
        value_models(copy@) == value_models(items@),
    decreases items,
{
    let mut copy: Vec<Value> = Vec::new();
    let mut i: usize = 0;
    while i < items.len()
        invariant
            i <= items.len(),
            copy.len() == i,
            forall|k: int| 0 <= k < i ==> copy@[k].model() == items@[k].model(),
        decreases items.len() - i,
    {
        copy.push(copy_value(&items[i]));
        i = i + 1;
    }
    assert(value_models(copy@) =~= value_models(items@));
    copy
}

#[verifier::loop_isolation(false)]
fn copy_fields(items: &Vec<(String, Value)>) -> (copy: Vec<(String, Value)>)
    ensures
        field_models(copy@) == field_models(items@),
    decreases items,
{
    let mut copy: Vec<(String, Value)> = Vec::new();
    let mut i: usize = 0;
    while i < items.len()
        invariant
            i <= items.len(),
            copy.len() == i,
            forall|k: int|
                0 <= k < i ==> copy@[k].0@ == items@[k].0@ && copy@[k].1.model()
                    == items@[k].1.model(),
        decreases items.len() - i,
    {
        let field = &items[i];
        copy.push((field.0.clone(), copy_value(&field.1)));
        i = i + 1;
    }
    assert(field_models(copy@) =~= field_models(items@));
    copy
}

fn copy_value(value: &Value) -> (copy: Value)
    ensures
        copy.model() == value.model(),
    decreases value,
{
    match value {
        Value::String { value } => Value::String { value: value.clone() },
        Value::Number { value } => Value::Number { value: *value },
        Value::Boolean { value } => Value::Boolean { value: *value },
        Value::Array { values } => Value::Array { values: copy_values(values) },
        Value::Object { fields } => Value::Object { fields: copy_fields(fields) },
        Value::Promise { value, resolved } => Value::Promise {
            value: Box::new(copy_value(value)),
            resolved: *resolved,
        },
        Value::Null => Value::Null,
    }
}

impl Clone for Value {
    fn clone(&self) -> (copy: Self)
        ensures
            copy@ == self@,
    {
        copy_value(self)
    }
}

/// The position of the first field named `key` at or after `from`.
pub open spec fn field_position(
    fields: Seq<(Seq<char>, ValueView)>,
    key: Seq<char>,
    from: int,
) -> Option<int>
    decreases fields.len() - from,
{
    if from < 0 || from >= fields.len() {
        None
    } else if fields[from].0 == key {
        Some(from)
    } else {
        field_position(fields, key, from + 1)
    }
}

/// The fields after `key` has been given `value`: an existing field keeps
/// its place and takes the new value, a new one is added at the end.
pub open spec fn with_field(
    fields: Seq<(Seq<char>, ValueView)>,
    key: Seq<char>,
    value: ValueView,
) -> Seq<(Seq<char>, ValueView)> {
    match field_position(fields, key, 0) {
        Some(at) => fields.update(at, (key, value)),
        None => fields.push((key, value)),
    }
}

/// The fields with the values at positions `first` and `second` exchanged;
/// every key stays where it is.
pub open spec fn with_values_swapped(
    fields: Seq<(Seq<char>, ValueView)>,
    first: int,
    second: int,
) -> Seq<(Seq<char>, ValueView)>
    recommends
        0 <= first < fields.len(),
        0 <= second < fields.len(),
{
    fields.update(first, (fields[first].0, fields[second].1)).update(
        second,
        (fields[second].0, fields[first].1),
    )
}

/// Whether two strings hold the same characters.
pub fn same_text(left: &String, right: &str) -> (same: bool)
    ensures
        same == (left@ == right@),
{
    let other = String::from_str(right);
    *left == other
}

/// Finds the first field named `key`.
pub fn find_field(fields: &Vec<(String, Value)>, key: &String) -> (found: Option<usize>)
    ensures
        match found {
            Some(at) => at < fields.len() && field_position(field_models(fields@), key@, 0)
                == Some(at as int),
            None => field_position(field_models(fields@), key@, 0) is None,
        },
{
    let ghost model = field_models(fields@);
    let mut i: usize = 0;
    while i < fields.len()
        invariant
            i <= fields.len(),
            model == field_models(fields@),
            field_position(model, key@, 0) == field_position(model, key@, i as int),
        decreases fields.len() - i,
    {
        if fields[i].0 == *key {
            return Some(i);
        }
        i = i + 1;
    }
    None
}

/// Gives the field `key` the value `value`: replaces the value of the
/// first field of that name, or adds a new field at the end.
pub fn set_field(fields: &mut Vec<(String, Value)>, key: String, value: Value)
    ensures
        field_models(final(fields)@) == with_field(field_models(old(fields)@), key@, value@),
{
    let ghost before = field_models(fields@);
    match find_field(fields, &key) {
        Some(at) => {
            fields.set(at, (key, value));
            assert(field_models(fields@) =~= before.update(at as int, (key@, value@)));
        },
        None => {
            fields.push((key, value));
            assert(field_models(fields@) =~= before.push((key@, value@)));
        },
    }
}

/// Exchanges the values of the fields at positions `first` and `second`.
pub fn swap_field_values(fields: &Vec<(String, Value)>, first: usize, second: usize) -> (swapped:
    Vec<(String, Value)>)
    requires
        first < fields.len(),
        second < fields.len(),
    ensures
        field_models(swapped@) == with_values_swapped(
            field_models(fields@),
            first as int,
            second as int,
        ),
{
    let ghost before = field_models(fields@);
    let mut swapped: Vec<(String, Value)> = Vec::new();
    let mut i: usize = 0;
    while i < fields.len()
        invariant
            i <= fields.len(),
            first < fields.len(),
            second < fields.len(),
            before == field_models(fields@),
            swapped.len() == i,
            forall|k: int|
                0 <= k < i ==> (#[trigger] swapped@[k]).0@ == before[k].0 && swapped@[k].1.model()
                    == (if k == second {
                    before[first as int].1
                } else if k == first {
                    before[second as int].1
                } else {
                    before[k].1
                }),
        decreases fields.len() - i,
    {
        let source = if i == second {
            first
        } else if i == first {
            second
        } else {
            i
        };
        swapped.push((fields[i].0.clone(), fields[source].1.clone()));
        i = i + 1;
    }
    assert(field_models(swapped@) =~= with_values_swapped(before, first as int, second as int));
    swapped
}

/// The character of the decimal digit `digit`.
pub open spec fn digit_char(digit: nat) -> char
    recommends
        digit < 10,
{
    ((48 + digit) as u8) as char
}

/// The decimal digits of a natural number, most significant first.
pub open spec fn digits(number: nat) -> Seq<char>
    decreases number,
{
    if number < 10 {
        seq![digit_char(number)]
    } else {
        digits(number / 10).push(digit_char(number % 10))
    }
}

/// A number written in decimal, with a leading `-` when it is negative.
pub open spec fn decimal(number: int) -> Seq<char> {
    if number < 0 {
        seq!['-'] + digits((-number) as nat)
    } else {
        digits(number as nat)
    }
}

fn push_digits(text: &mut String, number: u64)
    ensures
        final(text)@ == old(text)@ + digits(number as nat),
    decreases number,
{
    if number >= 10 {
        push_digits(text, number / 10);
    }
    let digit: u8 = (number % 10) as u8;
    let ghost before = text@;
    text.push((48 + digit) as char);
    assert(text@ =~= old(text)@ + digits(number as nat));
}

/// Writes a number in decimal.
pub fn number_text(number: i64) -> (text: String)
    ensures
        text@ == decimal(number as int),
{
    let mut text = String::new();
    if number < 0 {
        text.push('-');
        let magnitude: u64 = ((-(number + 1)) as u64) + 1;
        push_digits(&mut text, magnitude);
        assert(text@ =~= decimal(number as int));
    } else {
        push_digits(&mut text, number as u64);
        assert(text@ =~= decimal(number as int));
    }
    text
}

/// The ways in which a running program can fail.
#[derive(Debug, PartialEq)]
pub enum RuntimeError {
    /// A variable was read that has no value (or claims to have none).
    UndefinedVariable(String),
    /// The right operand of `multiply` was zero.
    DivisionByZero,
    /// No browser tab could be opened.
    BrowserError,
    /// Saving was asked for; it is never possible.
    SaveError,
    /// Any other failure, with its description.
    Generic(String),
    /// The task failed successfully.
    TaskFailedSuccessfully,
    /// Everything went wrong perfectly.
    PerfectlyWrong,
    /// The interpreter is a teapot.
    Teapot,
    /// The failure had style.
    StylePoints,
    /// A new way to break things was found.
    CreativeBreakage,
    /// A promise was rejected.
    PromiseRejected,
    /// The array took a vacation.
    ArrayVacation,
    /// The object's keys swapped places.
    ObjectChaos,
    /// An asynchronous operation timed out.
    AsyncTimeout,
}

/// Model of a [`RuntimeError`].
pub ghost enum RuntimeErrorView {
    UndefinedVariable(Seq<char>),
    DivisionByZero,
    BrowserError,
    SaveError,
    Generic(Seq<char>),
    TaskFailedSuccessfully,
    PerfectlyWrong,
    Teapot,
    StylePoints,
    CreativeBreakage,
    PromiseRejected,
    ArrayVacation,
    ObjectChaos,
    AsyncTimeout,
}

impl View for RuntimeError {
    type V = RuntimeErrorView;

    open spec fn view(&self) -> RuntimeErrorView {
        match self {
            RuntimeError::UndefinedVariable(name) => RuntimeErrorView::UndefinedVariable(name@),
            RuntimeError::DivisionByZero => RuntimeErrorView::DivisionByZero,
            RuntimeError::BrowserError => RuntimeErrorView::BrowserError,
            RuntimeError::SaveError => RuntimeErrorView::SaveError,
            RuntimeError::Generic(text) => RuntimeErrorView::Generic(text@),
            RuntimeError::TaskFailedSuccessfully => RuntimeErrorView::TaskFailedSuccessfully,
            RuntimeError::PerfectlyWrong => RuntimeErrorView::PerfectlyWrong,
            RuntimeError::Teapot => RuntimeErrorView::Teapot,
            RuntimeError::StylePoints => RuntimeErrorView::StylePoints,
            RuntimeError::CreativeBreakage => RuntimeErrorView::CreativeBreakage,
            RuntimeError::PromiseRejected => RuntimeErrorView::PromiseRejected,
            RuntimeError::ArrayVacation => RuntimeErrorView::ArrayVacation,
            RuntimeError::ObjectChaos => RuntimeErrorView::ObjectChaos,
            RuntimeError::AsyncTimeout => RuntimeErrorView::AsyncTimeout,
        }
    }
}

/// The text by which an error describes itself.
pub open spec fn error_text(error: RuntimeErrorView) -> Seq<char> {
    match error {
        RuntimeErrorView::UndefinedVariable(name) => "Variable '"@ + name
            + "' not found. Have you tried looking under the couch?"@,
        RuntimeErrorView::DivisionByZero =>
            "Division by zero. Congratulations, you've broken mathematics! 🎉"@,
        RuntimeErrorView::BrowserError =>
            "Failed to open browser tab. Either your internet is as reliable as a chocolate teapot, or the universe is working exactly as intended."@,
        RuntimeErrorView::SaveError =>
            "Saving is overrated. Maybe try writing it down with a crayon instead? 📝"@,
        RuntimeErrorView::Generic(text) => "You've achieved the impossible: "@ + text
            + ". Here's a virtual cookie 🍪"@,
        RuntimeErrorView::TaskFailedSuccessfully => "Task failed successfully! Error code: 42"@,
        RuntimeErrorView::PerfectlyWrong =>
            "Your code is running exactly as intended... which means everything is wrong"@,
        RuntimeErrorView::Teapot =>
            "Error 418: I'm a teapot. Yes, really. No, I won't make coffee. ☕"@,
        RuntimeErrorView::StylePoints =>
            "Your code is so bad, it's good. Task failed successfully with style! 🎨"@,
        RuntimeErrorView::CreativeBreakage =>
            "Congratulations! You've discovered a new way to break things! 🎈"@,
        RuntimeErrorView::PromiseRejected => "Promise rejected because Mercury is in retrograde 🌠"@,
        RuntimeErrorView::ArrayVacation =>
            "Array decided to take a vacation to the Bermuda Triangle 🏖️"@,
        RuntimeErrorView::ObjectChaos => "Object keys had an identity crisis and swapped places 🔄"@,
        RuntimeErrorView::AsyncTimeout => "Async function went async-fishing 🎣"@,
    }
}

impl RuntimeError {
    /// The text by which the error describes itself.
    pub fn to_string(&self) -> (text: String)
        ensures
            text@ == error_text(self@),
    {
        match self {
            RuntimeError::UndefinedVariable(name) => {
                let mut text = String::from_str("Variable '");
                text.append(name.as_str());
                text.append("' not found. Have you tried looking under the couch?");
                text
            },
            RuntimeError::DivisionByZero => String::from_str(
                "Division by zero. Congratulations, you've broken mathematics! 🎉",
            ),
            RuntimeError::BrowserError => String::from_str(
                "Failed to open browser tab. Either your internet is as reliable as a chocolate teapot, or the universe is working exactly as intended.",
            ),
            RuntimeError::SaveError => String::from_str(
                "Saving is overrated. Maybe try writing it down with a crayon instead? 📝",
            ),
            RuntimeError::Generic(detail) => {
                let mut text = String::from_str("You've achieved the impossible: ");
                text.append(detail.as_str());
                text.append(". Here's a virtual cookie 🍪");
                text
            },
            RuntimeError::TaskFailedSuccessfully => String::from_str(
                "Task failed successfully! Error code: 42",
            ),
            RuntimeError::PerfectlyWrong => String::from_str(
                "Your code is running exactly as intended... which means everything is wrong",
            ),
            RuntimeError::Teapot => String::from_str(
                "Error 418: I'm a teapot. Yes, really. No, I won't make coffee. ☕",
            ),
            RuntimeError::StylePoints => String::from_str(
                "Your code is so bad, it's good. Task failed successfully with style! 🎨",
            ),
            RuntimeError::CreativeBreakage => String::from_str(
                "Congratulations! You've discovered a new way to break things! 🎈",
            ),
            RuntimeError::PromiseRejected => String::from_str(
                "Promise rejected because Mercury is in retrograde 🌠",
            ),
            RuntimeError::ArrayVacation => String::from_str(
                "Array decided to take a vacation to the Bermuda Triangle 🏖️",
            ),
            RuntimeError::ObjectChaos => String::from_str(
                "Object keys had an identity crisis and swapped places 🔄",
            ),
            RuntimeError::AsyncTimeout => String::from_str("Async function went async-fishing 🎣"),
        }
    }
}

/// Something a program asks its host to do. The interpreter records these
/// requests in order; the host carries them out.
#[derive(Debug, PartialEq)]
pub enum Effect {
    /// Write a value to standard output.
    Print {
        /// The value to write.
        value: Value,
    },
    /// Write a line of text to standard output.
    Say {
        /// The line.
        text: String,
    },
    /// Open a URL in a browser.
    OpenUrl {
        /// The URL.
        url: String,
    },
    /// Sleep.
    Sleep {
        /// For how many milliseconds.
        milliseconds: u64,
    },
}

/// Model of an [`Effect`].
pub ghost enum EffectView {
    Print { value: ValueView },
    Say { text: Seq<char> },
    OpenUrl { url: Seq<char> },
    Sleep { milliseconds: u64 },
}

impl View for Effect {
    type V = EffectView;

    open spec fn view(&self) -> EffectView {
        match self {
            Effect::Print { value } => EffectView::Print { value: value@ },
            Effect::Say { text } => EffectView::Say { text: text@ },
            Effect::OpenUrl { url } => EffectView::OpenUrl { url: url@ },
            Effect::Sleep { milliseconds } => EffectView::Sleep { milliseconds: *milliseconds },
        }
    }
}

/// The models of a sequence of effects.
pub open spec fn effect_models(items: Seq<Effect>) -> Seq<EffectView> {
    Seq::new(items.len(), |i: int| items[i]@)
}

} // verus!
