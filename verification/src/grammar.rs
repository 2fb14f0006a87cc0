//! The grammar of the language, as mathematical functions from a token
//! sequence and a position to what is parsed there.
//!
//! Parsing goes strictly from left to right and looks one token ahead.
//! It never backtracks and never recovers: the first token that does not
//! fit ends the parse with an error that carries that token, or the
//! end-of-input token where the input is exhausted.
//!
//! Every function returns a [`Parsed`]: the result, and the position after
//! what was parsed or, on failure, the position of the token that did not
//! fit. Where a function goes on after a part, it goes on at
//! [`forward`] of the part's end, which is that end itself: a part that
//! is parsed always ends after its beginning ([`law_parse_advances`]).

use vstd::prelude::*;
use crate::ast::{BinaryOp, ExpressionView, LiteralView, StatementView};
use crate::lexer::{in_class, lemma_run_end_bounds, run_end, scan, CharClass, TokenKind, TokenView};
use crate::text::{joined_path, parse_number, trim_quotes};

verus! {

/// Model of a [`ParseError`](crate::parser::ParseError).
pub ghost enum ParseErrorView {
    UnexpectedToken(TokenView),
    UnexpectedEof,
    InvalidStringLiteral,
    InvalidNumberLiteral,
}

/// What parsing at a position gives.
pub ghost struct Parsed<T> {
    /// What was parsed, or the error.
    pub result: Result<T, ParseErrorView>,
    /// The position after what was parsed or, on failure, of the token
    /// that did not fit.
    pub position: int,
}

/// A successful parse.
pub open spec fn parsed<T>(value: T, position: int) -> Parsed<T> {
    Parsed { result: Ok(value), position }
}

/// A failed parse.
pub open spec fn refused<T>(error: ParseErrorView, position: int) -> Parsed<T> {
    Parsed { result: Err(error), position }
}

/// The failure of one parse, as the failure of another.
pub open spec fn give_up<S, T>(failure: Parsed<S>) -> Parsed<T>
    recommends
        failure.result is Err,
{
    Parsed { result: Err(failure.result->Err_0), position: failure.position }
}

/// The token that stands for the end of the input.
pub open spec fn end_of_input() -> TokenView {
    TokenView { kind: TokenKind::Whitespace, text: Seq::empty() }
}

/// The token at a position, or the end-of-input token.
pub open spec fn token_at(tokens: Seq<TokenView>, at: int) -> TokenView {
    if 0 <= at < tokens.len() {
        tokens[at]
    } else {
        end_of_input()
    }
}

/// Whether the token at a position is of the given kind.
pub open spec fn has_kind(tokens: Seq<TokenView>, at: int, kind: TokenKind) -> bool {
    0 <= at < tokens.len() && tokens[at].kind == kind
}

/// The error of the token at a position that does not fit.
pub open spec fn unexpected(tokens: Seq<TokenView>, at: int) -> ParseErrorView {
    ParseErrorView::UnexpectedToken(token_at(tokens, at))
}

/// A failed parse because of the token at a position.
pub open spec fn misfit<T>(tokens: Seq<TokenView>, at: int) -> Parsed<T> {
    refused(unexpected(tokens, at), at)
}

/// One token of the given kind: its text.
pub open spec fn expect(tokens: Seq<TokenView>, at: int, kind: TokenKind) -> Parsed<Seq<char>> {
    if has_kind(tokens, at, kind) {
        parsed(tokens[at].text, at + 1)
    } else {
        misfit(tokens, at)
    }
}

/// The position after an optional comma.
pub open spec fn skip_comma(tokens: Seq<TokenView>, at: int) -> int {
    if has_kind(tokens, at, TokenKind::Comma) {
        at + 1
    } else {
        at
    }
}

/// The position at which parsing goes on after a part that ended at
/// `position`: that position, and `least` at least.
pub open spec fn forward(position: int, least: int) -> int {
    if position < least {
        least
    } else {
        position
    }
}

/// The number of tokens at and after a position.
pub open spec fn remaining(tokens: Seq<TokenView>, at: int) -> nat {
    if at < tokens.len() {
        (tokens.len() - at) as nat
    } else {
        0
    }
}

/// The position of the first `wanted` in a text at or after `from`.
pub open spec fn first_index(text: Seq<char>, wanted: char, from: int) -> Option<int>
    decreases text.len() - from,
{
    if from < 0 || from >= text.len() {
        None
    } else if text[from] == wanted {
        Some(from)
    } else {
        first_index(text, wanted, from + 1)
    }
}

/// The name in the text of an attribute, `#[name]` or
/// `#[name(parameters)]`: the text between the first two and the last
/// character, up to its first `(`. A text too short for that, or with
/// nothing after the `(`, has no name.
pub open spec fn attribute_name(text: Seq<char>) -> Option<Seq<char>> {
    if text.len() < 3 {
        None
    } else {
        let content = text.subrange(2, text.len() - 1);
        match first_index(content, '(', 0) {
            None => Some(content),
            Some(at) => if at + 2 <= content.len() {
                Some(content.subrange(0, at))
            } else {
                None
            },
        }
    }
}

/// The name in the text of a directive, `#[directive(name)]`: the text
/// between the first twelve and the last two characters. A text too
/// short for that has no name.
pub open spec fn directive_name(text: Seq<char>) -> Option<Seq<char>> {
    if text.len() < 14 {
        None
    } else {
        Some(text.subrange(12, text.len() - 2))
    }
}

/// The attributes before a statement: the position after them. An
/// attribute whose text has no name does not fit.
pub open spec fn parse_attributes(tokens: Seq<TokenView>, at: int) -> Parsed<()>
    decreases remaining(tokens, at),
{
    if has_kind(tokens, at, TokenKind::Attribute) {
        if attribute_name(tokens[at].text) is None {
            misfit(tokens, at)
        } else {
            parse_attributes(tokens, at + 1)
        }
    } else {
        parsed((), at)
    }
}

/// Names up to a closing parenthesis, each optionally followed by a
/// comma.
pub open spec fn parse_names(tokens: Seq<TokenView>, at: int, gathered: Seq<Seq<char>>) -> Parsed<
    Seq<Seq<char>>,
>
    decreases remaining(tokens, at),
{
    if has_kind(tokens, at, TokenKind::RightParen) {
        parsed(gathered, at)
    } else if has_kind(tokens, at, TokenKind::Identifier) {
        parse_names(tokens, skip_comma(tokens, at + 1), gathered.push(tokens[at].text))
    } else {
        misfit(tokens, at)
    }
}

/// A parameter list: `(`, names, `)`.
pub open spec fn parse_parameters(tokens: Seq<TokenView>, at: int) -> Parsed<Seq<Seq<char>>> {
    if !has_kind(tokens, at, TokenKind::LeftParen) {
        misfit(tokens, at)
    } else {
        let names = parse_names(tokens, at + 1, Seq::empty());
        if names.result is Err {
            names
        } else if !has_kind(tokens, names.position, TokenKind::RightParen) {
            misfit(tokens, names.position)
        } else {
            parsed(names.result->Ok_0, names.position + 1)
        }
    }
}

/// The segments of a path: names with `::` between them.
pub open spec fn parse_segments(tokens: Seq<TokenView>, at: int, gathered: Seq<Seq<char>>)
    -> Parsed<Seq<Seq<char>>>
    decreases remaining(tokens, at),
{
    if !has_kind(tokens, at, TokenKind::Identifier) {
        misfit(tokens, at)
    } else if has_kind(tokens, at + 1, TokenKind::DoubleColon) {
        parse_segments(tokens, at + 2, gathered.push(tokens[at].text))
    } else {
        parsed(gathered.push(tokens[at].text), at + 1)
    }
}

/// A path: its segments joined by `::`.
pub open spec fn parse_use_path(tokens: Seq<TokenView>, at: int) -> Parsed<Seq<char>> {
    let segments = parse_segments(tokens, at, Seq::empty());
    match segments.result {
        Ok(names) => parsed(joined_path(names), segments.position),
        Err(_) => give_up(segments),
    }
}

/// The names among a list of expressions: of each expression that is an
/// identifier its name, in order.
pub open spec fn identifier_names(items: Seq<ExpressionView>) -> Seq<Seq<char>>
    decreases items.len(),
{
    if items.len() == 0 {
        Seq::empty()
    } else {
        match items.last() {
            ExpressionView::Identifier(name) => identifier_names(items.drop_last()).push(name),
            _ => identifier_names(items.drop_last()),
        }
    }
}

/// The binary operation that a keyword names.
pub open spec fn operation_of(kind: TokenKind) -> Option<BinaryOp> {
    match kind {
        TokenKind::Add => Some(BinaryOp::Add),
        TokenKind::Multiply => Some(BinaryOp::Multiply),
        TokenKind::Index => Some(BinaryOp::Index),
        TokenKind::Equals => Some(BinaryOp::Equals),
        TokenKind::LessThan => Some(BinaryOp::LessThan),
        _ => None,
    }
}

/// Two operands: `(`, an expression, `,`, an expression, `)`.
pub open spec fn parse_operands(tokens: Seq<TokenView>, at: int) -> Parsed<
    (ExpressionView, ExpressionView),
>
    decreases remaining(tokens, at), 0nat,
{
    if !has_kind(tokens, at, TokenKind::LeftParen) {
        misfit(tokens, at)
    } else {
        let first = parse_expression(tokens, at + 1);
        let comma = forward(first.position, at + 1);
        if first.result is Err {
            give_up(first)
        } else if !has_kind(tokens, comma, TokenKind::Comma) {
            misfit(tokens, comma)
        } else {
            let second = parse_expression(tokens, comma + 1);
            let close = forward(second.position, comma + 1);
            if second.result is Err {
                give_up(second)
            } else if !has_kind(tokens, close, TokenKind::RightParen) {
                misfit(tokens, close)
            } else {
                parsed((first.result->Ok_0, second.result->Ok_0), close + 1)
            }
        }
    }
}

/// One operand: `(`, an expression, `)`.
pub open spec fn parse_operand(tokens: Seq<TokenView>, at: int) -> Parsed<ExpressionView>
    decreases remaining(tokens, at), 1nat,
{
    if !has_kind(tokens, at, TokenKind::LeftParen) {
        misfit(tokens, at)
    } else {
        let inner = parse_expression(tokens, at + 1);
        let close = forward(inner.position, at + 1);
        if inner.result is Err {
            inner
        } else if !has_kind(tokens, close, TokenKind::RightParen) {
            misfit(tokens, close)
        } else {
            parsed(inner.result->Ok_0, close + 1)
        }
    }
}

/// The operands of a promise: `(`, an expression, optionally `,` and a
/// timeout, `)`.
pub open spec fn parse_promise(tokens: Seq<TokenView>, at: int) -> Parsed<ExpressionView>
    decreases remaining(tokens, at), 1nat,
{
    if !has_kind(tokens, at, TokenKind::LeftParen) {
        misfit(tokens, at)
    } else {
        let value = parse_expression(tokens, at + 1);
        let after = forward(value.position, at + 1);
        if value.result is Err {
            value
        } else if has_kind(tokens, after, TokenKind::Comma) {
            let timeout = parse_expression(tokens, after + 1);
            let close = forward(timeout.position, after + 1);
            if timeout.result is Err {
                timeout
            } else if !has_kind(tokens, close, TokenKind::RightParen) {
                misfit(tokens, close)
            } else {
                parsed(
                    ExpressionView::Promise {
                        value: Box::new(value.result->Ok_0),
                        timeout: Some(Box::new(timeout.result->Ok_0)),
                    },
                    close + 1,
                )
            }
        } else if !has_kind(tokens, after, TokenKind::RightParen) {
            misfit(tokens, after)
        } else {
            parsed(
                ExpressionView::Promise { value: Box::new(value.result->Ok_0), timeout: None },
                after + 1,
            )
        }
    }
}

/// Expressions up to a token of the kind `closer`, each optionally
/// followed by a comma.
pub open spec fn parse_items(
    tokens: Seq<TokenView>,
    at: int,
    closer: TokenKind,
    gathered: Seq<ExpressionView>,
) -> Parsed<Seq<ExpressionView>>
    decreases remaining(tokens, at), 1nat,
{
    if has_kind(tokens, at, closer) {
        parsed(gathered, at)
    } else if at >= tokens.len() {
        misfit(tokens, at)
    } else {
        let item = parse_expression(tokens, at);
        if item.result is Err {
            give_up(item)
        } else {
            parse_items(
                tokens,
                skip_comma(tokens, forward(item.position, at + 1)),
                closer,
                gathered.push(item.result->Ok_0),
            )
        }
    }
}

/// The arguments of a call within an expression, after its `(`: one
/// expression, and another after each comma.
pub open spec fn parse_call_arguments(
    tokens: Seq<TokenView>,
    at: int,
    gathered: Seq<ExpressionView>,
) -> Parsed<Seq<ExpressionView>>
    decreases remaining(tokens, at), 1nat,
{
    let item = parse_expression(tokens, at);
    let after = forward(item.position, at + 1);
    if at >= tokens.len() {
        misfit(tokens, at)
    } else if item.result is Err {
        give_up(item)
    } else if has_kind(tokens, after, TokenKind::Comma) {
        parse_call_arguments(tokens, after + 1, gathered.push(item.result->Ok_0))
    } else {
        parsed(gathered.push(item.result->Ok_0), after)
    }
}

/// A call within an expression: `(`, arguments separated by commas, `)`.
pub open spec fn parse_function_call(tokens: Seq<TokenView>, at: int, name: Seq<char>) -> Parsed<
    ExpressionView,
>
    decreases remaining(tokens, at), 1nat,
{
    if !has_kind(tokens, at, TokenKind::LeftParen) {
        misfit(tokens, at)
    } else if has_kind(tokens, at + 1, TokenKind::RightParen) {
        parsed(ExpressionView::FunctionCall { name, arguments: Seq::empty() }, at + 2)
    } else {
        let arguments = parse_call_arguments(tokens, at + 1, Seq::empty());
        if arguments.result is Err {
            give_up(arguments)
        } else if !has_kind(tokens, arguments.position, TokenKind::RightParen) {
            misfit(tokens, arguments.position)
        } else {
            parsed(
                ExpressionView::FunctionCall { name, arguments: arguments.result->Ok_0 },
                arguments.position + 1,
            )
        }
    }
}

/// The pairs of an object literal up to `}`: a string, `:`, an
/// expression, and optionally a comma, each.
pub open spec fn parse_pairs(
    tokens: Seq<TokenView>,
    at: int,
    gathered: Seq<(Seq<char>, ExpressionView)>,
) -> Parsed<Seq<(Seq<char>, ExpressionView)>>
    decreases remaining(tokens, at), 1nat,
{
    if has_kind(tokens, at, TokenKind::RightBrace) {
        parsed(gathered, at)
    } else if !has_kind(tokens, at, TokenKind::StringLiteral) {
        misfit(tokens, at)
    } else if !has_kind(tokens, at + 1, TokenKind::Colon) {
        misfit(tokens, at + 1)
    } else {
        let value = parse_expression(tokens, at + 2);
        if value.result is Err {
            give_up(value)
        } else {
            parse_pairs(
                tokens,
                skip_comma(tokens, forward(value.position, at + 2)),
                gathered.push((trim_quotes(tokens[at].text), value.result->Ok_0)),
            )
        }
    }
}

/// An expression.
pub open spec fn parse_expression(tokens: Seq<TokenView>, at: int) -> Parsed<ExpressionView>
    decreases remaining(tokens, at), 0nat,
{
    if !(0 <= at < tokens.len()) {
        misfit(tokens, at)
    } else {
        let token = tokens[at];
        match token.kind {
            TokenKind::StringLiteral => parsed(
                ExpressionView::Literal(LiteralView::String(trim_quotes(token.text))),
                at + 1,
            ),
            TokenKind::NumberLiteral => match parse_number(token.text) {
                Some(number) => parsed(
                    ExpressionView::Literal(LiteralView::Number(number)),
                    at + 1,
                ),
                None => refused(ParseErrorView::InvalidNumberLiteral, at),
            },
            TokenKind::True => parsed(ExpressionView::Literal(LiteralView::Boolean(true)), at + 1),
            TokenKind::False => parsed(
                ExpressionView::Literal(LiteralView::Boolean(false)),
                at + 1,
            ),
            TokenKind::Null => parsed(ExpressionView::Literal(LiteralView::Null), at + 1),
            TokenKind::Add | TokenKind::Multiply | TokenKind::Index | TokenKind::Equals
            | TokenKind::LessThan => {
                let operands = parse_operands(tokens, at + 1);
                match operands.result {
                    Ok(pair) => parsed(
                        ExpressionView::BinaryOp {
                            op: operation_of(token.kind)->Some_0,
                            left: Box::new(pair.0),
                            right: Box::new(pair.1),
                        },
                        operands.position,
                    ),
                    Err(_) => give_up(operands),
                }
            },
            TokenKind::Access => {
                let operands = parse_operands(tokens, at + 1);
                match operands.result {
                    Ok(pair) => parsed(
                        ExpressionView::Access { object: Box::new(pair.0), key: Box::new(pair.1) },
                        operands.position,
                    ),
                    Err(_) => give_up(operands),
                }
            },
            TokenKind::Identifier => if has_kind(tokens, at + 1, TokenKind::LeftParen) {
                parse_function_call(tokens, at + 1, token.text)
            } else {
                parsed(ExpressionView::Identifier(token.text), at + 1)
            },
            TokenKind::LeftBracket => {
                let items = parse_items(tokens, at + 1, TokenKind::RightBracket, Seq::empty());
                if items.result is Err {
                    give_up(items)
                } else if !has_kind(tokens, items.position, TokenKind::RightBracket) {
                    misfit(tokens, items.position)
                } else {
                    parsed(
                        ExpressionView::Literal(LiteralView::Array(items.result->Ok_0)),
                        items.position + 1,
                    )
                }
            },
            TokenKind::LeftBrace => {
                let pairs = parse_pairs(tokens, at + 1, Seq::empty());
                if pairs.result is Err {
                    give_up(pairs)
                } else if !has_kind(tokens, pairs.position, TokenKind::RightBrace) {
                    misfit(tokens, pairs.position)
                } else {
                    parsed(
                        ExpressionView::Literal(LiteralView::Object(pairs.result->Ok_0)),
                        pairs.position + 1,
                    )
                }
            },
            TokenKind::Promise => parse_promise(tokens, at + 1),
            TokenKind::Await => {
                let operand = parse_operand(tokens, at + 1);
                match operand.result {
                    Ok(promise) => parsed(
                        ExpressionView::Await { promise: Box::new(promise) },
                        operand.position,
                    ),
                    Err(_) => operand,
                }
            },
            _ => misfit(tokens, at),
        }
    }
}

/// An expression followed by `;`.
pub open spec fn parse_expression_statement(tokens: Seq<TokenView>, at: int) -> Parsed<
    StatementView,
> {
    let expression = parse_expression(tokens, at);
    if expression.result is Err {
        give_up(expression)
    } else if !has_kind(tokens, expression.position, TokenKind::Semicolon) {
        misfit(tokens, expression.position)
    } else {
        parsed(StatementView::Expression(expression.result->Ok_0), expression.position + 1)
    }
}

/// `let`, a name, `=`, an expression, `;`. Whatever token stands at
/// `at` is taken for the `let`.
pub open spec fn parse_let_statement(tokens: Seq<TokenView>, at: int) -> Parsed<StatementView> {
    if !has_kind(tokens, at + 1, TokenKind::Identifier) {
        misfit(tokens, at + 1)
    } else if !has_kind(tokens, at + 2, TokenKind::Assignment) {
        misfit(tokens, at + 2)
    } else {
        let value = parse_expression(tokens, at + 3);
        if value.result is Err {
            give_up(value)
        } else if !has_kind(tokens, value.position, TokenKind::Semicolon) {
            misfit(tokens, value.position)
        } else {
            parsed(
                StatementView::Let { name: tokens[at + 1].text, value: value.result->Ok_0 },
                value.position + 1,
            )
        }
    }
}

/// `print`, `(`, an expression, `)`, `;`. Whatever token stands at `at`
/// is taken for the `print`.
pub open spec fn parse_print_statement(tokens: Seq<TokenView>, at: int) -> Parsed<StatementView> {
    let value = parse_operand(tokens, at + 1);
    if value.result is Err {
        give_up(value)
    } else if !has_kind(tokens, value.position, TokenKind::Semicolon) {
        misfit(tokens, value.position)
    } else {
        parsed(StatementView::Print { value: value.result->Ok_0 }, value.position + 1)
    }
}

/// `save`, `(`, a string, `)`, `;`. The parentheses may both be left
/// out: `save`, a string, `;`.
pub open spec fn parse_save(tokens: Seq<TokenView>, at: int) -> Parsed<StatementView> {
    if has_kind(tokens, at + 1, TokenKind::LeftParen) {
        if !has_kind(tokens, at + 2, TokenKind::StringLiteral) {
            misfit(tokens, at + 2)
        } else if !has_kind(tokens, at + 3, TokenKind::RightParen) {
            misfit(tokens, at + 3)
        } else if !has_kind(tokens, at + 4, TokenKind::Semicolon) {
            misfit(tokens, at + 4)
        } else {
            parsed(StatementView::Save { filename: trim_quotes(tokens[at + 2].text) }, at + 5)
        }
    } else if !has_kind(tokens, at + 1, TokenKind::StringLiteral) {
        misfit(tokens, at + 1)
    } else if !has_kind(tokens, at + 2, TokenKind::Semicolon) {
        misfit(tokens, at + 2)
    } else {
        parsed(StatementView::Save { filename: trim_quotes(tokens[at + 1].text) }, at + 3)
    }
}

/// `exit`, `(`, `)`, `;`: a call of `exit` without arguments.
pub open spec fn parse_exit(tokens: Seq<TokenView>, at: int) -> Parsed<StatementView> {
    if !has_kind(tokens, at + 1, TokenKind::LeftParen) {
        misfit(tokens, at + 1)
    } else if !has_kind(tokens, at + 2, TokenKind::RightParen) {
        misfit(tokens, at + 2)
    } else if !has_kind(tokens, at + 3, TokenKind::Semicolon) {
        misfit(tokens, at + 3)
    } else {
        parsed(
            StatementView::Expression(
                ExpressionView::FunctionCall { name: "exit"@, arguments: Seq::empty() },
            ),
            at + 4,
        )
    }
}

/// `await`, an expression, `;`.
pub open spec fn parse_await(tokens: Seq<TokenView>, at: int) -> Parsed<StatementView> {
    let expression = parse_expression(tokens, at + 1);
    if expression.result is Err {
        give_up(expression)
    } else if !has_kind(tokens, expression.position, TokenKind::Semicolon) {
        misfit(tokens, expression.position)
    } else {
        parsed(
            StatementView::Await { expression: expression.result->Ok_0 },
            expression.position + 1,
        )
    }
}

/// `use`, a path, `;`. Whatever token stands at `at` is taken for the
/// `use`.
pub open spec fn parse_use(tokens: Seq<TokenView>, at: int) -> Parsed<StatementView> {
    let path = parse_use_path(tokens, at + 1);
    if path.result is Err {
        give_up(path)
    } else if !has_kind(tokens, path.position, TokenKind::Semicolon) {
        misfit(tokens, path.position)
    } else {
        parsed(StatementView::Use { path: path.result->Ok_0 }, path.position + 1)
    }
}

/// Statements up to `}`.
pub open spec fn parse_body(tokens: Seq<TokenView>, at: int, gathered: Seq<StatementView>)
    -> Parsed<Seq<StatementView>>
    decreases remaining(tokens, at), 5nat,
{
    if has_kind(tokens, at, TokenKind::RightBrace) {
        parsed(gathered, at)
    } else if at >= tokens.len() {
        misfit(tokens, at)
    } else {
        let statement = parse_statement(tokens, at);
        if statement.result is Err {
            give_up(statement)
        } else {
            parse_body(
                tokens,
                forward(statement.position, at + 1),
                gathered.push(statement.result->Ok_0),
            )
        }
    }
}

/// A block: `{`, statements, `}`.
pub open spec fn parse_block(tokens: Seq<TokenView>, at: int) -> Parsed<Seq<StatementView>>
    decreases remaining(tokens, at), 0nat,
{
    if !has_kind(tokens, at, TokenKind::LeftBrace) {
        misfit(tokens, at)
    } else {
        let body = parse_body(tokens, at + 1, Seq::empty());
        if body.result is Err {
            body
        } else if !has_kind(tokens, body.position, TokenKind::RightBrace) {
            misfit(tokens, body.position)
        } else {
            parsed(body.result->Ok_0, body.position + 1)
        }
    }
}

/// `if`, `(`, a condition, `)`, a block, and optionally `else` and a
/// block. Whatever token stands at `at` is taken for the `if`.
pub open spec fn parse_if_statement(tokens: Seq<TokenView>, at: int) -> Parsed<StatementView>
    decreases remaining(tokens, at), 2nat,
{
    let condition = parse_operand(tokens, at + 1);
    let then_at = forward(condition.position, at + 1);
    if condition.result is Err {
        give_up(condition)
    } else {
        let then_branch = parse_block(tokens, then_at);
        let else_at = forward(then_branch.position, then_at);
        if then_branch.result is Err {
            give_up(then_branch)
        } else if has_kind(tokens, else_at, TokenKind::Else) {
            let else_branch = parse_block(tokens, else_at + 1);
            match else_branch.result {
                Ok(statements) => parsed(
                    StatementView::If {
                        condition: condition.result->Ok_0,
                        then_branch: then_branch.result->Ok_0,
                        else_branch: Some(statements),
                    },
                    else_branch.position,
                ),
                Err(_) => give_up(else_branch),
            }
        } else {
            parsed(
                StatementView::If {
                    condition: condition.result->Ok_0,
                    then_branch: then_branch.result->Ok_0,
                    else_branch: None,
                },
                else_at,
            )
        }
    }
}

/// `loop` and a block. Whatever token stands at `at` is taken for the
/// `loop`.
pub open spec fn parse_loop_statement(tokens: Seq<TokenView>, at: int) -> Parsed<StatementView>
    decreases remaining(tokens, at), 2nat,
{
    let body = parse_block(tokens, at + 1);
    match body.result {
        Ok(statements) => parsed(StatementView::Loop { body: statements }, body.position),
        Err(_) => give_up(body),
    }
}

/// What a declaration has after its first token: a name, a parameter
/// list and a block.
pub ghost struct Declaration {
    pub name: Seq<char>,
    pub parameters: Seq<Seq<char>>,
    pub body: Seq<StatementView>,
}

/// A name, a parameter list and a block.
pub open spec fn parse_declaration(tokens: Seq<TokenView>, at: int) -> Parsed<Declaration>
    decreases remaining(tokens, at), 1nat,
{
    if !has_kind(tokens, at, TokenKind::Identifier) {
        misfit(tokens, at)
    } else {
        let parameters = parse_parameters(tokens, at + 1);
        let body_at = forward(parameters.position, at + 1);
        if parameters.result is Err {
            give_up(parameters)
        } else {
            let body = parse_block(tokens, body_at);
            match body.result {
                Ok(statements) => parsed(
                    Declaration {
                        name: tokens[at].text,
                        parameters: parameters.result->Ok_0,
                        body: statements,
                    },
                    body.position,
                ),
                Err(_) => give_up(body),
            }
        }
    }
}

/// A function declaration: one token, which is taken for `fn` whatever
/// it is, then a name, a parameter list and a block. At the end of the
/// input there is no token to take, and the name is looked for at `at`.
pub open spec fn parse_function(tokens: Seq<TokenView>, at: int) -> Parsed<StatementView> {
    let declaration = parse_declaration(
        tokens,
        if at < tokens.len() {
            at + 1
        } else {
            at
        },
    );
    match declaration.result {
        Ok(parts) => parsed(
            StatementView::Function {
                name: parts.name,
                parameters: parts.parameters,
                body: parts.body,
            },
            declaration.position,
        ),
        Err(_) => give_up(declaration),
    }
}

/// `async`, a name, a parameter list and a block.
pub open spec fn parse_async(tokens: Seq<TokenView>, at: int) -> Parsed<StatementView>
    decreases remaining(tokens, at), 2nat,
{
    let declaration = parse_declaration(tokens, at + 1);
    match declaration.result {
        Ok(parts) => parsed(
            StatementView::AsyncFunction {
                name: parts.name,
                parameters: parts.parameters,
                body: parts.body,
            },
            declaration.position,
        ),
        Err(_) => give_up(declaration),
    }
}

/// `mod`, a name and a block. Whatever token stands at `at` is taken
/// for the `mod`.
pub open spec fn parse_module(tokens: Seq<TokenView>, at: int) -> Parsed<StatementView>
    decreases remaining(tokens, at), 2nat,
{
    if !has_kind(tokens, at + 1, TokenKind::Identifier) {
        misfit(tokens, at + 1)
    } else {
        let body = parse_block(tokens, at + 2);
        match body.result {
            Ok(statements) => parsed(
                StatementView::Module { name: tokens[at + 1].text, body: statements },
                body.position,
            ),
            Err(_) => give_up(body),
        }
    }
}

/// `try`, a block, and optionally `catch`, a name and a block. Where no
/// `catch` follows the block, the statement ends there: it has an empty
/// name for its error variable and an empty catch-block.
pub open spec fn parse_try(tokens: Seq<TokenView>, at: int) -> Parsed<StatementView>
    decreases remaining(tokens, at), 2nat,
{
    let try_block = parse_block(tokens, at + 1);
    let catch_at = forward(try_block.position, at + 1);
    if try_block.result is Err {
        give_up(try_block)
    } else if !has_kind(tokens, catch_at, TokenKind::Catch) {
        parsed(
            StatementView::TryCatch {
                try_block: try_block.result->Ok_0,
                error_var: Seq::empty(),
                catch_block: Seq::empty(),
            },
            catch_at,
        )
    } else if !has_kind(tokens, catch_at + 1, TokenKind::Identifier) {
        misfit(tokens, catch_at + 1)
    } else {
        let catch_block = parse_block(tokens, catch_at + 2);
        match catch_block.result {
            Ok(statements) => parsed(
                StatementView::TryCatch {
                    try_block: try_block.result->Ok_0,
                    error_var: tokens[catch_at + 1].text,
                    catch_block: statements,
                },
                catch_block.position,
            ),
            Err(_) => give_up(catch_block),
        }
    }
}

/// A statement that begins with a name: a function declaration, `name
/// (arguments) { .. }`, whose parameters are the arguments that are
/// names; a call, `name(arguments);`; or the name as an expression,
/// `name;`.
pub open spec fn parse_named(tokens: Seq<TokenView>, at: int) -> Parsed<StatementView>
    decreases remaining(tokens, at), 2nat,
{
    if !has_kind(tokens, at, TokenKind::Identifier) {
        misfit(tokens, at)
    } else if !has_kind(tokens, at + 1, TokenKind::LeftParen) {
        if has_kind(tokens, at + 1, TokenKind::Semicolon) {
            parsed(
                StatementView::Expression(ExpressionView::Identifier(tokens[at].text)),
                at + 2,
            )
        } else {
            misfit(tokens, at + 1)
        }
    } else {
        let arguments = parse_items(tokens, at + 2, TokenKind::RightParen, Seq::empty());
        let close = forward(arguments.position, at + 2);
        if arguments.result is Err {
            give_up(arguments)
        } else if !has_kind(tokens, close, TokenKind::RightParen) {
            misfit(tokens, close)
        } else if has_kind(tokens, close + 1, TokenKind::LeftBrace) {
            let body = parse_block(tokens, close + 1);
            match body.result {
                Ok(statements) => parsed(
                    StatementView::Function {
                        name: tokens[at].text,
                        parameters: identifier_names(arguments.result->Ok_0),
                        body: statements,
                    },
                    body.position,
                ),
                Err(_) => give_up(body),
            }
        } else if has_kind(tokens, close + 1, TokenKind::Semicolon) {
            parsed(
                StatementView::Expression(
                    ExpressionView::FunctionCall {
                        name: tokens[at].text,
                        arguments: arguments.result->Ok_0,
                    },
                ),
                close + 2,
            )
        } else {
            misfit(tokens, close + 1)
        }
    }
}

/// A statement without the attributes before it. The kind of its first
/// token decides what it is.
pub open spec fn parse_plain_statement(tokens: Seq<TokenView>, at: int) -> Parsed<StatementView>
    decreases remaining(tokens, at), 3nat,
{
    if !(0 <= at < tokens.len()) {
        misfit(tokens, at)
    } else {
        match tokens[at].kind {
            TokenKind::Module => parse_module(tokens, at),
            TokenKind::Use => parse_use(tokens, at),
            TokenKind::Let => parse_let_statement(tokens, at),
            TokenKind::Directive => match directive_name(tokens[at].text) {
                None => misfit(tokens, at),
                Some(name) => {
                    let inner = parse_statement(tokens, at + 1);
                    match inner.result {
                        Ok(statement) => parsed(
                            StatementView::Attributed { name, statement: Box::new(statement) },
                            inner.position,
                        ),
                        Err(_) => inner,
                    }
                },
            },
            TokenKind::Print => parse_print_statement(tokens, at),
            TokenKind::If => parse_if_statement(tokens, at),
            TokenKind::Loop => parse_loop_statement(tokens, at),
            TokenKind::Save => parse_save(tokens, at),
            TokenKind::Exit => parse_exit(tokens, at),
            TokenKind::Async => parse_async(tokens, at),
            TokenKind::Try => parse_try(tokens, at),
            TokenKind::Await => parse_await(tokens, at),
            TokenKind::Identifier => parse_named(tokens, at),
            _ => parse_expression_statement(tokens, at),
        }
    }
}

/// A statement: attributes, then a statement without attributes. With
/// attributes before it, the statement stands under the name of the
/// first of them.
pub open spec fn parse_statement(tokens: Seq<TokenView>, at: int) -> Parsed<StatementView>
    decreases remaining(tokens, at), 4nat,
{
    let attributes = parse_attributes(tokens, at);
    if attributes.result is Err {
        give_up(attributes)
    } else {
        let statement = parse_plain_statement(tokens, forward(attributes.position, at));
        match statement.result {
            Ok(inner) => if has_kind(tokens, at, TokenKind::Attribute) {
                parsed(
                    StatementView::Attributed {
                        name: attribute_name(tokens[at].text)->Some_0,
                        statement: Box::new(inner),
                    },
                    statement.position,
                )
            } else {
                statement
            },
            Err(_) => statement,
        }
    }
}

/// The statements of a program from position `at` to the end of the
/// input.
pub open spec fn parse_statements(tokens: Seq<TokenView>, at: int, gathered: Seq<StatementView>)
    -> Parsed<Seq<StatementView>>
    decreases remaining(tokens, at),
{
    if at < 0 || at >= tokens.len() {
        parsed(gathered, at)
    } else {
        let statement = parse_statement(tokens, at);
        if statement.result is Err {
            give_up(statement)
        } else {
            parse_statements(
                tokens,
                forward(statement.position, at + 1),
                gathered.push(statement.result->Ok_0),
            )
        }
    }
}

/// A program: statements up to the end of the input.
pub open spec fn parse_program(tokens: Seq<TokenView>, at: int) -> Parsed<Seq<StatementView>> {
    parse_statements(tokens, at, Seq::empty())
}

/// That what was parsed at `at` ends after `at` and within the tokens.
pub open spec fn ends_after<T>(tokens: Seq<TokenView>, at: int, outcome: Parsed<T>) -> bool {
    outcome.result is Ok ==> at < outcome.position <= tokens.len()
}

/// That what was parsed at `at` ends at or after `at` and within the
/// tokens.
pub open spec fn ends_from<T>(tokens: Seq<TokenView>, at: int, outcome: Parsed<T>) -> bool {
    outcome.result is Ok ==> at <= outcome.position <= tokens.len()
}

proof fn lemma_attributes_advance(tokens: Seq<TokenView>, at: int)
    requires
        0 <= at,
    ensures
        parse_attributes(tokens, at).result is Ok ==> at <= parse_attributes(tokens, at).position,
        parse_attributes(tokens, at).result is Ok && at <= tokens.len() ==> parse_attributes(
            tokens,
            at,
        ).position <= tokens.len(),
    decreases remaining(tokens, at),
{
    if has_kind(tokens, at, TokenKind::Attribute) && attribute_name(tokens[at].text) is Some {
        lemma_attributes_advance(tokens, at + 1);
    }
}

proof fn lemma_names_advance(tokens: Seq<TokenView>, at: int, gathered: Seq<Seq<char>>)
    requires
        0 <= at,
    ensures
        ends_from(tokens, at, parse_names(tokens, at, gathered)),
    decreases remaining(tokens, at),
{
    if has_kind(tokens, at, TokenKind::Identifier) {
        lemma_names_advance(tokens, skip_comma(tokens, at + 1), gathered.push(tokens[at].text));
    }
}

proof fn lemma_segments_advance(tokens: Seq<TokenView>, at: int, gathered: Seq<Seq<char>>)
    requires
        0 <= at,
    ensures
        ends_after(tokens, at, parse_segments(tokens, at, gathered)),
    decreases remaining(tokens, at),
{
    if has_kind(tokens, at, TokenKind::Identifier) && has_kind(
        tokens,
        at + 1,
        TokenKind::DoubleColon,
    ) {
        lemma_segments_advance(tokens, at + 2, gathered.push(tokens[at].text));
    }
}

proof fn lemma_operands_advance(tokens: Seq<TokenView>, at: int)
    requires
        0 <= at,
    ensures
        ends_after(tokens, at, parse_operands(tokens, at)),
    decreases remaining(tokens, at), 1nat,
{
    if has_kind(tokens, at, TokenKind::LeftParen) {
        lemma_expression_advances(tokens, at + 1);
        let first = parse_expression(tokens, at + 1);
        let comma = forward(first.position, at + 1);
        if first.result is Ok && has_kind(tokens, comma, TokenKind::Comma) {
            lemma_expression_advances(tokens, comma + 1);
        }
    }
}

proof fn lemma_operand_advances(tokens: Seq<TokenView>, at: int)
    requires
        0 <= at,
    ensures
        ends_after(tokens, at, parse_operand(tokens, at)),
    decreases remaining(tokens, at), 1nat,
{
    if has_kind(tokens, at, TokenKind::LeftParen) {
        lemma_expression_advances(tokens, at + 1);
    }
}

proof fn lemma_promise_advances(tokens: Seq<TokenView>, at: int)
    requires
        0 <= at,
    ensures
        ends_after(tokens, at, parse_promise(tokens, at)),
    decreases remaining(tokens, at), 1nat,
{
    if has_kind(tokens, at, TokenKind::LeftParen) {
        lemma_expression_advances(tokens, at + 1);
        let value = parse_expression(tokens, at + 1);
        let after = forward(value.position, at + 1);
        if value.result is Ok && has_kind(tokens, after, TokenKind::Comma) {
            lemma_expression_advances(tokens, after + 1);
        }
    }
}

proof fn lemma_items_advance(
    tokens: Seq<TokenView>,
    at: int,
    closer: TokenKind,
    gathered: Seq<ExpressionView>,
)
    requires
        0 <= at,
    ensures
        ends_from(tokens, at, parse_items(tokens, at, closer, gathered)),
    decreases remaining(tokens, at), 1nat,
{
    if !has_kind(tokens, at, closer) && at < tokens.len() {
        lemma_expression_advances(tokens, at);
        let item = parse_expression(tokens, at);
        if item.result is Ok {
            lemma_items_advance(
                tokens,
                skip_comma(tokens, forward(item.position, at + 1)),
                closer,
                gathered.push(item.result->Ok_0),
            );
        }
    }
}

proof fn lemma_call_arguments_advance(
    tokens: Seq<TokenView>,
    at: int,
    gathered: Seq<ExpressionView>,
)
    requires
        0 <= at,
    ensures
        ends_after(tokens, at, parse_call_arguments(tokens, at, gathered)),
    decreases remaining(tokens, at), 1nat,
{
    if at < tokens.len() {
        lemma_expression_advances(tokens, at);
        let item = parse_expression(tokens, at);
        let after = forward(item.position, at + 1);
        if item.result is Ok && has_kind(tokens, after, TokenKind::Comma) {
            lemma_call_arguments_advance(tokens, after + 1, gathered.push(item.result->Ok_0));
        }
    }
}

proof fn lemma_function_call_advances(tokens: Seq<TokenView>, at: int, name: Seq<char>)
    requires
        0 <= at,
    ensures
        ends_after(tokens, at, parse_function_call(tokens, at, name)),
    decreases remaining(tokens, at), 1nat,
{
    if has_kind(tokens, at, TokenKind::LeftParen) && !has_kind(
        tokens,
        at + 1,
        TokenKind::RightParen,
    ) {
        lemma_call_arguments_advance(tokens, at + 1, Seq::empty());
    }
}

proof fn lemma_pairs_advance(
    tokens: Seq<TokenView>,
    at: int,
    gathered: Seq<(Seq<char>, ExpressionView)>,
)
    requires
        0 <= at,
    ensures
        ends_from(tokens, at, parse_pairs(tokens, at, gathered)),
    decreases remaining(tokens, at), 1nat,
{
    if !has_kind(tokens, at, TokenKind::RightBrace) && has_kind(
        tokens,
        at,
        TokenKind::StringLiteral,
    ) && has_kind(tokens, at + 1, TokenKind::Colon) {
        lemma_expression_advances(tokens, at + 2);
        let value = parse_expression(tokens, at + 2);
        if value.result is Ok {
            lemma_pairs_advance(
                tokens,
                skip_comma(tokens, forward(value.position, at + 2)),
                gathered.push((trim_quotes(tokens[at].text), value.result->Ok_0)),
            );
        }
    }
}

proof fn lemma_expression_advances(tokens: Seq<TokenView>, at: int)
    requires
        0 <= at,
    ensures
        ends_after(tokens, at, parse_expression(tokens, at)),
    decreases remaining(tokens, at), 0nat,
{
    if at < tokens.len() {
        match tokens[at].kind {
            TokenKind::Add | TokenKind::Multiply | TokenKind::Index | TokenKind::Equals
            | TokenKind::LessThan | TokenKind::Access => {
                lemma_operands_advance(tokens, at + 1);
            },
            TokenKind::Identifier => {
                if has_kind(tokens, at + 1, TokenKind::LeftParen) {
                    lemma_function_call_advances(tokens, at + 1, tokens[at].text);
                }
            },
            TokenKind::LeftBracket => {
                lemma_items_advance(tokens, at + 1, TokenKind::RightBracket, Seq::empty());
            },
            TokenKind::LeftBrace => {
                lemma_pairs_advance(tokens, at + 1, Seq::empty());
            },
            TokenKind::Promise => {
                lemma_promise_advances(tokens, at + 1);
            },
            TokenKind::Await => {
                lemma_operand_advances(tokens, at + 1);
            },
            _ => {},
        }
    }
}

proof fn lemma_body_advances(tokens: Seq<TokenView>, at: int, gathered: Seq<StatementView>)
    requires
        0 <= at,
    ensures
        ends_from(tokens, at, parse_body(tokens, at, gathered)),
    decreases remaining(tokens, at), 5nat,
{
    if !has_kind(tokens, at, TokenKind::RightBrace) && at < tokens.len() {
        lemma_statement_advances(tokens, at);
        let statement = parse_statement(tokens, at);
        if statement.result is Ok {
            lemma_body_advances(
                tokens,
                forward(statement.position, at + 1),
                gathered.push(statement.result->Ok_0),
            );
        }
    }
}

proof fn lemma_block_advances(tokens: Seq<TokenView>, at: int)
    requires
        0 <= at,
    ensures
        ends_after(tokens, at, parse_block(tokens, at)),
    decreases remaining(tokens, at), 0nat,
{
    if has_kind(tokens, at, TokenKind::LeftBrace) {
        lemma_body_advances(tokens, at + 1, Seq::empty());
    }
}

proof fn lemma_declaration_advances(tokens: Seq<TokenView>, at: int)
    requires
        0 <= at,
    ensures
        ends_after(tokens, at, parse_declaration(tokens, at)),
    decreases remaining(tokens, at), 1nat,
{
    if has_kind(tokens, at, TokenKind::Identifier) {
        lemma_names_advance(tokens, at + 2, Seq::empty());
        let parameters = parse_parameters(tokens, at + 1);
        if parameters.result is Ok {
            lemma_block_advances(tokens, forward(parameters.position, at + 1));
        }
    }
}

#[verifier::rlimit(40)]
proof fn lemma_plain_statement_advances(tokens: Seq<TokenView>, at: int)
    requires
        0 <= at,
    ensures
        ends_after(tokens, at, parse_plain_statement(tokens, at)),
    decreases remaining(tokens, at), 3nat,
{
    if at < tokens.len() {
        match tokens[at].kind {
            TokenKind::Module => {
                if has_kind(tokens, at + 1, TokenKind::Identifier) {
                    lemma_block_advances(tokens, at + 2);
                }
            },
            TokenKind::Use => {
                lemma_segments_advance(tokens, at + 1, Seq::empty());
            },
            TokenKind::Let => {
                lemma_expression_advances(tokens, at + 3);
            },
            TokenKind::Directive => {
                lemma_statement_advances(tokens, at + 1);
            },
            TokenKind::Print => {
                lemma_operand_advances(tokens, at + 1);
            },
            TokenKind::If => {
                lemma_operand_advances(tokens, at + 1);
                let condition = parse_operand(tokens, at + 1);
                let then_at = forward(condition.position, at + 1);
                if condition.result is Ok {
                    lemma_block_advances(tokens, then_at);
                    let then_branch = parse_block(tokens, then_at);
                    let else_at = forward(then_branch.position, then_at);
                    if then_branch.result is Ok && has_kind(tokens, else_at, TokenKind::Else) {
                        lemma_block_advances(tokens, else_at + 1);
                    }
                }
            },
            TokenKind::Loop => {
                lemma_block_advances(tokens, at + 1);
            },
            TokenKind::Async => {
                lemma_declaration_advances(tokens, at + 1);
            },
            TokenKind::Try => {
                lemma_block_advances(tokens, at + 1);
                let try_block = parse_block(tokens, at + 1);
                let catch_at = forward(try_block.position, at + 1);
                if try_block.result is Ok && has_kind(tokens, catch_at, TokenKind::Catch)
                    && has_kind(tokens, catch_at + 1, TokenKind::Identifier) {
                    lemma_block_advances(tokens, catch_at + 2);
                }
            },
            TokenKind::Await => {
                lemma_expression_advances(tokens, at + 1);
            },
            TokenKind::Identifier => {
                if has_kind(tokens, at + 1, TokenKind::LeftParen) {
                    lemma_items_advance(tokens, at + 2, TokenKind::RightParen, Seq::empty());
                    let arguments = parse_items(
                        tokens,
                        at + 2,
                        TokenKind::RightParen,
                        Seq::empty(),
                    );
                    let close = forward(arguments.position, at + 2);
                    if arguments.result is Ok && has_kind(tokens, close, TokenKind::RightParen)
                        && has_kind(tokens, close + 1, TokenKind::LeftBrace) {
                        lemma_block_advances(tokens, close + 1);
                    }
                }
            },
            TokenKind::Save | TokenKind::Exit => {},
            _ => {
                lemma_expression_advances(tokens, at);
            },
        }
    }
}

proof fn lemma_statement_advances(tokens: Seq<TokenView>, at: int)
    requires
        0 <= at,
    ensures
        ends_after(tokens, at, parse_statement(tokens, at)),
    decreases remaining(tokens, at), 4nat,
{
    lemma_attributes_advance(tokens, at);
    let attributes = parse_attributes(tokens, at);
    if attributes.result is Ok {
        lemma_plain_statement_advances(tokens, forward(attributes.position, at));
    }
}

proof fn lemma_statements_advance(tokens: Seq<TokenView>, at: int, gathered: Seq<StatementView>)
    requires
        0 <= at,
    ensures
        parse_statements(tokens, at, gathered).result is Ok ==> at <= parse_statements(
            tokens,
            at,
            gathered,
        ).position,
        parse_statements(tokens, at, gathered).result is Ok && at <= tokens.len()
            ==> parse_statements(tokens, at, gathered).position == tokens.len(),
    decreases remaining(tokens, at),
{
    if at < tokens.len() {
        lemma_statement_advances(tokens, at);
        let statement = parse_statement(tokens, at);
        if statement.result is Ok {
            lemma_statements_advance(
                tokens,
                forward(statement.position, at + 1),
                gathered.push(statement.result->Ok_0),
            );
        }
    }
}

/// Every character of a run belongs to the class of the run.
proof fn lemma_run_members(input: Seq<char>, from: int, class: CharClass, at: int)
    requires
        0 <= from <= at < run_end(input, from, class),
    ensures
        at < input.len(),
        in_class(class, input[at]),
    decreases input.len() - from,
{
    if from < input.len() && in_class(class, input[from]) {
        if from < at {
            lemma_run_members(input, from + 1, class, at);
        }
    }
}

/// A text finds no `(` among word characters.
proof fn lemma_no_parenthesis_in_words(text: Seq<char>, from: int, until: int)
    requires
        0 <= from <= until <= text.len(),
        forall|k: int| from <= k < until ==> in_class(CharClass::Word, #[trigger] text[k]),
    ensures
        first_index(text, '(', from) == first_index(text, '(', until),
    decreases until - from,
{
    if from < until {
        assert(in_class(CharClass::Word, text[from]));
        lemma_no_parenthesis_in_words(text, from + 1, until);
    }
}

/// The text of an attribute and of a directive that the tokenizer gives
/// holds the name that the parser takes from it: of an attribute the
/// name after `#[`, of a directive the name between the parentheses.
#[verifier::rlimit(40)]
pub proof fn law_scanned_names(input: Seq<char>, at: int)
    requires
        0 <= at < input.len(),
    ensures
        ({
            let lexeme = scan(input, at);
            let text = input.subrange(at, lexeme.end);
            let name_end = run_end(input, at + 2, CharClass::Word);
            let parameters_end = run_end(input, name_end + 1, CharClass::ParameterBody);
            &&& lexeme.kind == Some(TokenKind::Attribute) ==> at + 2 < name_end <= input.len()
                && attribute_name(text) == Some(input.subrange(at + 2, name_end))
            &&& lexeme.kind == Some(TokenKind::Directive) ==> name_end + 1 < parameters_end
                <= input.len() && directive_name(text) == Some(
                input.subrange(name_end + 1, parameters_end),
            )
        }),
{
    let lexeme = scan(input, at);
    let text = input.subrange(at, lexeme.end);
    if lexeme.kind == Some(TokenKind::Attribute) || lexeme.kind == Some(TokenKind::Directive) {
        assert(input[at] == '#');
        lemma_run_end_bounds(input, at + 2, CharClass::Word);
        let name_end = run_end(input, at + 2, CharClass::Word);
        let name = input.subrange(at + 2, name_end);
        assert forall|k: int| at + 2 <= k < name_end implies in_class(
            CharClass::Word,
            #[trigger] input[k],
        ) by {
            lemma_run_members(input, at + 2, CharClass::Word, k);
        }
        if input[name_end] == ']' {
            let content = text.subrange(2, text.len() - 1);
            assert(content =~= name);
            lemma_no_parenthesis_in_words(content, 0, content.len() as int);
        } else {
            lemma_run_end_bounds(input, name_end + 1, CharClass::ParameterBody);
            let parameters_end = run_end(input, name_end + 1, CharClass::ParameterBody);
            let content = text.subrange(2, text.len() - 1);
            assert(content =~= input.subrange(at + 2, parameters_end + 1));
            let length = name_end - (at + 2);
            assert forall|k: int| 0 <= k < length implies in_class(
                CharClass::Word,
                #[trigger] content[k],
            ) by {
                assert(content[k] == input[at + 2 + k]);
            }
            lemma_no_parenthesis_in_words(content, 0, length);
            assert(content[length] == '(');
            assert(content.subrange(0, length) =~= name);
            if lexeme.kind == Some(TokenKind::Directive) {
                reveal_strlit("directive");
                assert(name.len() == 9);
                assert(text.subrange(12, text.len() - 2) =~= input.subrange(
                    name_end + 1,
                    parameters_end,
                ));
            }
        }
    }
}

/// Whatever is parsed ends after its beginning and within the tokens: a
/// statement and an expression take at least one token, and a program
/// that is parsed takes all the tokens. So wherever the grammar goes on
/// at [`forward`] of the end of a part, it goes on at that end.
pub proof fn law_parse_advances(tokens: Seq<TokenView>, at: int)
    requires
        0 <= at,
    ensures
        ends_after(tokens, at, parse_expression(tokens, at)),
        ends_after(tokens, at, parse_statement(tokens, at)),
        ends_after(tokens, at, parse_block(tokens, at)),
        ends_from(tokens, at, parse_body(tokens, at, Seq::empty())),
        at <= tokens.len() && parse_program(tokens, at).result is Ok ==> parse_program(
            tokens,
            at,
        ).position == tokens.len(),
{
    lemma_expression_advances(tokens, at);
    lemma_statement_advances(tokens, at);
    lemma_block_advances(tokens, at);
    lemma_body_advances(tokens, at, Seq::empty());
    lemma_statements_advance(tokens, at, Seq::empty());
}

} // verus!
