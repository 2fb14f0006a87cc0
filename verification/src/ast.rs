//! The abstract syntax tree of the Useless Programming Language.
//!
//! Every node type comes with a mathematical model (`LiteralView`,
//! `ExpressionView`, `StatementView`) in which strings are sequences of
//! characters and vectors are sequences. The parser's and the interpreter's
//! contracts are stated over these models.

use vstd::prelude::*;

verus! {

/// Literal values as they are written in a program.
#[derive(Debug, PartialEq)]
pub enum Literal {
    /// A string literal, without its quotes.
    String(String),
    /// A 64-bit signed number.
    Number(i64),
    /// `true` or `false`.
    Boolean(bool),
    /// An array literal: its element expressions, in order.
    Array(Vec<Box<Expression>>),
    /// An object literal: its key/value pairs, in order; keys may repeat.
    Object(Vec<(String, Box<Expression>)>),
    /// `null`.
    Null,
}

/// The built-in binary operations.
#[derive(Debug, Clone, Copy, PartialEq, Eq, Structural)]
pub enum BinaryOp {
    /// Written `add(a, b)`.
    Add,
    /// Written `multiply(a, b)`.
    Multiply,
    /// Written `index(a, b)`.
    Index,
    /// Never written in source text; only built directly.
    Access,
    /// Written `equals(a, b)`.
    Equals,
    /// Written `lessThan(a, b)`.
    LessThan,
}

/// Expressions.
#[derive(Debug, PartialEq)]
pub enum Expression {
    /// A literal value.
    Literal(Literal),
    /// A variable name.
    Identifier(String),
    /// A built-in binary operation.
    BinaryOp {
        /// The operation.
        op: BinaryOp,
        /// The left operand.
        left: Box<Expression>,
        /// The right operand.
        right: Box<Expression>,
    },
    /// A call by name.
    FunctionCall {
        /// The name of the function.
        name: String,
        /// The argument expressions.
        arguments: Vec<Expression>,
    },
    /// Array or object access.
    Access {
        /// The array or object.
        object: Box<Expression>,
        /// The index or key.
        key: Box<Expression>,
    },
    /// A promise of a value.
    Promise {
        /// The promised value.
        value: Box<Expression>,
        /// An optional timeout in milliseconds.
        timeout: Option<Box<Expression>>,
    },
    /// Awaiting a promise.
    Await {
        /// The awaited promise.
        promise: Box<Expression>,
    },
}

/// Statements.
#[derive(Debug, PartialEq)]
pub enum Statement {
    /// `print(value);`
    Print {
        /// The printed expression.
        value: Expression,
    },
    /// `let name = value;`
    Let {
        /// The variable's name.
        name: String,
        /// The bound expression.
        value: Expression,
    },
    /// A bare expression followed by a semicolon.
    Expression(Expression),
    /// `if (condition) { .. } else { .. }`
    If {
        /// The condition.
        condition: Expression,
        /// The statements of the then-branch.
        then_branch: Vec<Statement>,
        /// The statements of the else-branch, when there is one.
        else_branch: Option<Vec<Statement>>,
    },
    /// `loop { .. }`
    Loop {
        /// The body.
        body: Vec<Statement>,
    },
    /// A function declaration.
    Function {
        /// The function's name.
        name: String,
        /// The parameter names.
        parameters: Vec<String>,
        /// The body.
        body: Vec<Statement>,
    },
    /// An asynchronous function declaration.
    AsyncFunction {
        /// The function's name.
        name: String,
        /// The parameter names.
        parameters: Vec<String>,
        /// The body.
        body: Vec<Statement>,
    },
    /// `try { .. } catch name { .. }`, or `try { .. }` alone.
    TryCatch {
        /// The guarded statements.
        try_block: Vec<Statement>,
        /// The variable that receives the error's text; empty where the
        /// source has no `catch`.
        error_var: String,
        /// The statements run after a failure; none where the source
        /// has no `catch`.
        catch_block: Vec<Statement>,
    },
    /// `mod name { .. }`
    Module {
        /// The module's name.
        name: String,
        /// The body.
        body: Vec<Statement>,
    },
    /// `use a::b;`
    Use {
        /// The imported path, segments joined by `::`.
        path: String,
    },
    /// A directive that stays active once executed.
    Directive {
        /// The directive's name.
        name: String,
    },
    /// `save("file");` or `save "file";`
    Save {
        /// The file name.
        filename: String,
    },
    /// `await expression;`
    Await {
        /// The awaited expression.
        expression: Expression,
    },
    /// A statement under a directive that is active only while it runs.
    Attributed {
        /// The directive's name.
        name: String,
        /// The statement under the directive.
        statement: Box<Statement>,
    },
}

/// A complete program: its top-level statements in order.
pub type Program = Vec<Statement>;

/// Model of a [`Literal`].
pub ghost enum LiteralView {
    String(Seq<char>),
    Number(i64),
    Boolean(bool),
    Array(Seq<ExpressionView>),
    Object(Seq<(Seq<char>, ExpressionView)>),
    Null,
}

/// Model of an [`Expression`].
pub ghost enum ExpressionView {
    Literal(LiteralView),
    Identifier(Seq<char>),
    BinaryOp { op: BinaryOp, left: Box<ExpressionView>, right: Box<ExpressionView> },
    FunctionCall { name: Seq<char>, arguments: Seq<ExpressionView> },
    Access { object: Box<ExpressionView>, key: Box<ExpressionView> },
    Promise { value: Box<ExpressionView>, timeout: Option<Box<ExpressionView>> },
    Await { promise: Box<ExpressionView> },
}

/// Model of a [`Statement`].
pub ghost enum StatementView {
    Print { value: ExpressionView },
    Let { name: Seq<char>, value: ExpressionView },
    Expression(ExpressionView),
    If {
        condition: ExpressionView,
        then_branch: Seq<StatementView>,
        else_branch: Option<Seq<StatementView>>,
    },
    Loop { body: Seq<StatementView> },
    Function { name: Seq<char>, parameters: Seq<Seq<char>>, body: Seq<StatementView> },
    AsyncFunction { name: Seq<char>, parameters: Seq<Seq<char>>, body: Seq<StatementView> },
    TryCatch {
        try_block: Seq<StatementView>,
        error_var: Seq<char>,
        catch_block: Seq<StatementView>,
    },
    Module { name: Seq<char>, body: Seq<StatementView> },
    Use { path: Seq<char> },
    Directive { name: Seq<char> },
    Save { filename: Seq<char> },
    Await { expression: ExpressionView },
    Attributed { name: Seq<char>, statement: Box<StatementView> },
}

/// The character sequences of a sequence of strings.
pub open spec fn text_models(items: Seq<String>) -> Seq<Seq<char>> {
    Seq::new(items.len(), |i: int| items[i]@)
}

/// The models of a sequence of expressions.
pub open spec fn expression_models(items: Seq<Expression>) -> Seq<ExpressionView>
    decreases items,
{
    Seq::new(
        items.len(),
        |i: int|
            if 0 <= i < items.len() {
                items[i].model()
            } else {
                arbitrary()
            },
    )
}

/// The models of the element expressions of an array literal.
pub open spec fn element_models(items: Seq<Box<Expression>>) -> Seq<ExpressionView>
    decreases items,
{
    Seq::new(
        items.len(),
        |i: int|
            if 0 <= i < items.len() {
                (*items[i]).model()
            } else {
                arbitrary()
            },
    )
}

/// The models of the key/value pairs of an object literal.
pub open spec fn pair_models(items: Seq<(String, Box<Expression>)>) -> Seq<
    (Seq<char>, ExpressionView),
>
    decreases items,
{
    Seq::new(
        items.len(),
        |i: int|
            if 0 <= i < items.len() {
                (items[i].0@, (*items[i].1).model())
            } else {
                arbitrary()
            },
    )
}

/// The models of a sequence of statements.
pub open spec fn statement_models(items: Seq<Statement>) -> Seq<StatementView>
    decreases items,
{
    Seq::new(
        items.len(),
        |i: int|
            if 0 <= i < items.len() {
                items[i].model()
            } else {
                arbitrary()
            },
    )
}

impl Literal {
    /// The literal as a mathematical value.
    pub open spec fn model(&self) -> LiteralView
        decreases self,
    {
        match self {
            Literal::String(text) => LiteralView::String(text@),
            Literal::Number(number) => LiteralView::Number(*number),
            Literal::Boolean(flag) => LiteralView::Boolean(*flag),
            Literal::Array(items) => LiteralView::Array(element_models(items@)),
            Literal::Object(pairs) => LiteralView::Object(pair_models(pairs@)),
            Literal::Null => LiteralView::Null,
        }
    }
}

impl Expression {
    /// The expression as a mathematical value.
    pub open spec fn model(&self) -> ExpressionView
        decreases self,
    {
        match self {
            Expression::Literal(literal) => ExpressionView::Literal(literal.model()),
            Expression::Identifier(name) => ExpressionView::Identifier(name@),
            Expression::BinaryOp { op, left, right } => ExpressionView::BinaryOp {
                op: *op,
                left: Box::new((**left).model()),
                right: Box::new((**right).model()),
            },
            Expression::FunctionCall { name, arguments } => ExpressionView::FunctionCall {
                name: name@,
                arguments: expression_models(arguments@),
            },
            Expression::Access { object, key } => ExpressionView::Access {
                object: Box::new((**object).model()),
                key: Box::new((**key).model()),
            },
            Expression::Promise { value, timeout } => ExpressionView::Promise {
                value: Box::new((**value).model()),
                timeout: match timeout {
                    Some(limit) => Some(Box::new((**limit).model())),
                    None => None,
                },
            },
            Expression::Await { promise } => ExpressionView::Await {
                promise: Box::new((**promise).model()),
            },
        }
    }
}

impl Statement {
    /// The statement as a mathematical value.
    pub open spec fn model(&self) -> StatementView
        decreases self,
    {
        match self {
            Statement::Print { value } => StatementView::Print { value: value.model() },
            Statement::Let { name, value } => StatementView::Let {
                name: name@,
                value: value.model(),
            },
            Statement::Expression(expression) => StatementView::Expression(expression.model()),
            Statement::If { condition, then_branch, else_branch } => StatementView::If {
                condition: condition.model(),
                then_branch: statement_models(then_branch@),
                else_branch: match else_branch {
                    Some(statements) => Some(statement_models(statements@)),
                    None => None,
                },
            },
            Statement::Loop { body } => StatementView::Loop { body: statement_models(body@) },
            Statement::Function { name, parameters, body } => StatementView::Function {
                name: name@,
                parameters: text_models(parameters@),
                body: statement_models(body@),
            },
            Statement::AsyncFunction { name, parameters, body } => StatementView::AsyncFunction {
                name: name@,
                parameters: text_models(parameters@),
                body: statement_models(body@),
            },
            Statement::TryCatch { try_block, error_var, catch_block } => StatementView::TryCatch {
                try_block: statement_models(try_block@),
                error_var: error_var@,
                catch_block: statement_models(catch_block@),
            },
            Statement::Module { name, body } => StatementView::Module {
                name: name@,
                body: statement_models(body@),
            },
            Statement::Use { path } => StatementView::Use { path: path@ },
            Statement::Directive { name } => StatementView::Directive { name: name@ },
            Statement::Save { filename } => StatementView::Save { filename: filename@ },
            Statement::Await { expression } => StatementView::Await {
                expression: expression.model(),
            },
            Statement::Attributed { name, statement } => StatementView::Attributed {
                name: name@,
                statement: Box::new((**statement).model()),
            },
        }
    }
}

impl View for Literal {
    type V = LiteralView;

    open spec fn view(&self) -> LiteralView {
        self.model()
    }
}

impl View for Expression {
    type V = ExpressionView;

    open spec fn view(&self) -> ExpressionView {
        self.model()
    }
}

impl View for Statement {
    type V = StatementView;

    open spec fn view(&self) -> StatementView {
        self.model()
    }
}

/// A copy of a vector of strings.
fn copy_texts(items: &Vec<String>) -> (copy: Vec<String>)
    ensures
        text_models(copy@) == text_models(items@),
{
    let mut copy: Vec<String> = Vec::new();
    let mut i: usize = 0;
    while i < items.len()
        invariant
            i <= items.len(),
            copy.len() == i,
            forall|k: int| 0 <= k < i ==> copy@[k]@ == items@[k]@,
        decreases items.len() - i,
    {
        copy.push(items[i].clone());
        i = i + 1;
    }
    assert(text_models(copy@) =~= text_models(items@));
    copy
}

#[verifier::loop_isolation(false)]
fn copy_expressions(items: &Vec<Expression>) -> (copy: Vec<Expression>)
    ensures
        expression_models(copy@) == expression_models(items@),
    decreases items,
{
    let mut copy: Vec<Expression> = Vec::new();
    let mut i: usize = 0;
    while i < items.len()
        invariant
            i <= items.len(),
            copy.len() == i,
            forall|k: int| 0 <= k < i ==> copy@[k].model() == items@[k].model(),
        decreases items.len() - i,
    {
        copy.push(copy_expression(&items[i]));
        i = i + 1;
    }
    assert(expression_models(copy@) =~= expression_models(items@));
    copy
}

#[verifier::loop_isolation(false)]
fn copy_elements(items: &Vec<Box<Expression>>) -> (copy: Vec<Box<Expression>>)
    ensures
        element_models(copy@) == element_models(items@),
    decreases items,
{
    let mut copy: Vec<Box<Expression>> = Vec::new();
    let mut i: usize = 0;
    while i < items.len()
        invariant
            i <= items.len(),
            copy.len() == i,
            forall|k: int| 0 <= k < i ==> (*copy@[k]).model() == (*items@[k]).model(),
        decreases items.len() - i,
    {
        copy.push(Box::new(copy_expression(&items[i])));
        i = i + 1;
    }
    assert(element_models(copy@) =~= element_models(items@));
    copy
}

#[verifier::loop_isolation(false)]
fn copy_pairs(items: &Vec<(String, Box<Expression>)>) -> (copy: Vec<(String, Box<Expression>)>)
    ensures
        pair_models(copy@) == pair_models(items@),
    decreases items,
{
    let mut copy: Vec<(String, Box<Expression>)> = Vec::new();
    let mut i: usize = 0;
    while i < items.len()
        invariant
            i <= items.len(),
            copy.len() == i,
            forall|k: int|
                0 <= k < i ==> copy@[k].0@ == items@[k].0@ && (*copy@[k].1).model() == (
                *items@[k].1).model(),
        decreases items.len() - i,
    {
        let pair = &items[i];
        copy.push((pair.0.clone(), Box::new(copy_expression(&pair.1))));
        i = i + 1;
    }
    assert(pair_models(copy@) =~= pair_models(items@));
    copy
}

fn copy_literal(literal: &Literal) -> (copy: Literal)
    ensures
        copy.model() == literal.model(),
    decreases literal,
{
    match literal {
        Literal::String(text) => Literal::String(text.clone()),
        Literal::Number(number) => Literal::Number(*number),
        Literal::Boolean(flag) => Literal::Boolean(*flag),
        Literal::Array(items) => Literal::Array(copy_elements(items)),
        Literal::Object(pairs) => Literal::Object(copy_pairs(pairs)),
        Literal::Null => Literal::Null,
    }
}

fn copy_expression(expression: &Expression) -> (copy: Expression)
    ensures
        copy.model() == expression.model(),
    decreases expression,
{
    match expression {
        Expression::Literal(literal) => Expression::Literal(copy_literal(literal)),
        Expression::Identifier(name) => Expression::Identifier(name.clone()),
        Expression::BinaryOp { op, left, right } => Expression::BinaryOp {
            op: *op,
            left: Box::new(copy_expression(left)),
            right: Box::new(copy_expression(right)),
        },
        Expression::FunctionCall { name, arguments } => Expression::FunctionCall {
            name: name.clone(),
            arguments: copy_expressions(arguments),
        },
        Expression::Access { object, key } => Expression::Access {
            object: Box::new(copy_expression(object)),
            key: Box::new(copy_expression(key)),
        },
        Expression::Promise { value, timeout } => Expression::Promise {
            value: Box::new(copy_expression(value)),
            timeout: match timeout {
                Some(limit) => Some(Box::new(copy_expression(limit))),
                None => None,
            },
        },
        Expression::Await { promise } => Expression::Await {
            promise: Box::new(copy_expression(promise)),
        },
    }
}

#[verifier::loop_isolation(false)]
fn copy_statements(items: &Vec<Statement>) -> (copy: Vec<Statement>)
    ensures
        statement_models(copy@) == statement_models(items@),
    decreases items,
{
    let mut copy: Vec<Statement> = Vec::new();
    let mut i: usize = 0;
    while i < items.len()
        invariant
            i <= items.len(),
            copy.len() == i,
            forall|k: int| 0 <= k < i ==> copy@[k].model() == items@[k].model(),
        decreases items.len() - i,
    {
        copy.push(copy_statement(&items[i]));
        i = i + 1;
    }
    assert(statement_models(copy@) =~= statement_models(items@));
    copy
}

fn copy_statement(statement: &Statement) -> (copy: Statement)
    ensures
        copy.model() == statement.model(),
    decreases statement,
{
    match statement {
        Statement::Print { value } => Statement::Print { value: copy_expression(value) },
        Statement::Let { name, value } => Statement::Let {
            name: name.clone(),
            value: copy_expression(value),
        },
        Statement::Expression(expression) => Statement::Expression(copy_expression(expression)),
        Statement::If { condition, then_branch, else_branch } => Statement::If {
            condition: copy_expression(condition),
            then_branch: copy_statements(then_branch),
            else_branch: match else_branch {
                Some(statements) => Some(copy_statements(statements)),
                None => None,
            },
        },
        Statement::Loop { body } => Statement::Loop { body: copy_statements(body) },
        Statement::Function { name, parameters, body } => Statement::Function {
            name: name.clone(),
            parameters: copy_texts(parameters),
            body: copy_statements(body),
        },
        Statement::AsyncFunction { name, parameters, body } => Statement::AsyncFunction {
            name: name.clone(),
            parameters: copy_texts(parameters),
            body: copy_statements(body),
        },
        Statement::TryCatch { try_block, error_var, catch_block } => Statement::TryCatch {
            try_block: copy_statements(try_block),
            error_var: error_var.clone(),
            catch_block: copy_statements(catch_block),
        },
        Statement::Module { name, body } => Statement::Module {
            name: name.clone(),
            body: copy_statements(body),
        },
        Statement::Use { path } => Statement::Use { path: path.clone() },
        Statement::Directive { name } => Statement::Directive { name: name.clone() },
        Statement::Save { filename } => Statement::Save { filename: filename.clone() },
        Statement::Await { expression } => Statement::Await {
            expression: copy_expression(expression),
        },
        Statement::Attributed { name, statement } => Statement::Attributed {
            name: name.clone(),
            statement: Box::new(copy_statement(statement)),
        },
    }
}

impl Clone for Literal {
    fn clone(&self) -> (copy: Self)
        ensures
            copy@ == self@,
    {
        copy_literal(self)
    }
}

impl Clone for Expression {
    fn clone(&self) -> (copy: Self)
        ensures
            copy@ == self@,
    {
        copy_expression(self)
    }
}

impl Clone for Statement {
    fn clone(&self) -> (copy: Self)
        ensures
            copy@ == self@,
    {
        copy_statement(self)
    }
}

} // verus!
