//! The parser: from tokens to the abstract syntax tree.
//!
//! A [`Parser`] holds a token sequence and a position in it. Every parsing
//! method is proved to give what the grammar of [`crate::grammar`] says
//! for the tokens and the position at which it starts, and to leave the
//! parser at the position that the grammar says.

use vstd::prelude::*;
use vstd::string::StringExecFns;
use crate::ast::{
    element_models, expression_models, pair_models, statement_models, text_models, BinaryOp,
    Expression, ExpressionView, Literal, LiteralView, Program, Statement, StatementView,
};
use crate::grammar;
use crate::grammar::{forward, has_kind, remaining, ParseErrorView, Parsed};
use crate::lexer::{token_models, Token, TokenKind, TokenView};
use crate::text::{chars_of, joined_path, read_number, text_between, without_quotes};

verus! {

/// The ways in which parsing can fail.
#[derive(Debug, PartialEq)]
pub enum ParseError {
    /// A token that does not fit where it stands. At the end of the
    /// input the token is of the kind `Whitespace` and has no text.
    UnexpectedToken(Token),
    /// The input ended too early.
    UnexpectedEof,
    /// A string literal that is not one.
    InvalidStringLiteral,
    /// A number literal that does not denote a 64-bit signed number.
    InvalidNumberLiteral,
}

impl View for ParseError {
    type V = ParseErrorView;

    open spec fn view(&self) -> ParseErrorView {
        match self {
            ParseError::UnexpectedToken(token) => ParseErrorView::UnexpectedToken(token@),
            ParseError::UnexpectedEof => ParseErrorView::UnexpectedEof,
            ParseError::InvalidStringLiteral => ParseErrorView::InvalidStringLiteral,
            ParseError::InvalidNumberLiteral => ParseErrorView::InvalidNumberLiteral,
        }
    }
}

/// The model of the result of parsing an expression.
pub open spec fn expression_result(result: Result<Expression, ParseError>) -> Result<
    ExpressionView,
    ParseErrorView,
> {
    match result {
        Ok(expression) => Ok(expression@),
        Err(error) => Err(error@),
    }
}

/// The model of the result of parsing a statement.
pub open spec fn statement_result(result: Result<Statement, ParseError>) -> Result<
    StatementView,
    ParseErrorView,
> {
    match result {
        Ok(statement) => Ok(statement@),
        Err(error) => Err(error@),
    }
}

/// The model of the result of parsing statements.
pub open spec fn statements_result(result: Result<Vec<Statement>, ParseError>) -> Result<
    Seq<StatementView>,
    ParseErrorView,
> {
    match result {
        Ok(statements) => Ok(statement_models(statements@)),
        Err(error) => Err(error@),
    }
}

/// The model of the result of parsing expressions.
pub open spec fn expressions_result(result: Result<Vec<Expression>, ParseError>) -> Result<
    Seq<ExpressionView>,
    ParseErrorView,
> {
    match result {
        Ok(expressions) => Ok(expression_models(expressions@)),
        Err(error) => Err(error@),
    }
}

/// The model of the result of parsing a text.
pub open spec fn text_result(result: Result<String, ParseError>) -> Result<
    Seq<char>,
    ParseErrorView,
> {
    match result {
        Ok(text) => Ok(text@),
        Err(error) => Err(error@),
    }
}

/// The model of the result of parsing texts.
pub open spec fn texts_result(result: Result<Vec<String>, ParseError>) -> Result<
    Seq<Seq<char>>,
    ParseErrorView,
> {
    match result {
        Ok(texts) => Ok(text_models(texts@)),
        Err(error) => Err(error@),
    }
}

/// The model of the result of a step that gives nothing.
pub open spec fn unit_result(result: Result<(), ParseError>) -> Result<(), ParseErrorView> {
    match result {
        Ok(_) => Ok(()),
        Err(error) => Err(error@),
    }
}

/// A parser over one token sequence.
pub struct Parser {
    tokens: Vec<Token>,
    current: usize,
}

/// The expression that is a literal.
fn literal_expression(literal: Literal) -> (expression: Expression)
    ensures
        expression@ == ExpressionView::Literal(literal@),
{
    Expression::Literal(literal)
}

/// The names among a list of expressions.
fn names_among(items: &Vec<Expression>) -> (names: Vec<String>)
    ensures
        text_models(names@) == grammar::identifier_names(expression_models(items@)),
{
    let ghost models = expression_models(items@);
    let mut names: Vec<String> = Vec::new();
    let mut i: usize = 0;
    assert(models.take(0) =~= Seq::empty());
    assert(text_models(names@) =~= Seq::empty());
    while i < items.len()
        invariant
            i <= items.len(),
            models == expression_models(items@),
            text_models(names@) == grammar::identifier_names(models.take(i as int)),
        decreases items.len() - i,
    {
        let ghost before = text_models(names@);
        assert(models.take(i + 1).drop_last() =~= models.take(i as int));
        assert(models.take(i + 1).last() == items@[i as int].model());
        match &items[i] {
            Expression::Identifier(name) => {
                names.push(name.clone());
                assert(text_models(names@) =~= before.push(name@));
            },
            _ => {},
        }
        i = i + 1;
    }
    assert(models.take(i as int) =~= models);
    names
}

/// The name in the text of an attribute.
fn name_of_attribute(text: &String) -> (name: Option<String>)
    ensures
        match name {
            Some(found) => grammar::attribute_name(text@) == Some(found@),
            None => grammar::attribute_name(text@) is None,
        },
{
    let chars = chars_of(text.as_str());
    if chars.len() < 3 {
        return None;
    }
    let end: usize = chars.len() - 1;
    let ghost content = chars@.subrange(2, end as int);
    let mut at: usize = 2;
    while at < end && chars[at] != '('
        invariant
            2 <= at <= end,
            end == chars.len() - 1,
            content == chars@.subrange(2, end as int),
            grammar::first_index(content, '(', 0) == grammar::first_index(content, '(', at - 2),
        decreases end - at,
    {
        at = at + 1;
    }
    if at == end {
        let name = text_between(&chars, 2, end);
        assert(name@ =~= content);
        Some(name)
    } else if at + 1 < end {
        let name = text_between(&chars, 2, at);
        assert(name@ =~= content.subrange(0, at - 2));
        Some(name)
    } else {
        None
    }
}

/// The name in the text of a directive.
fn name_of_directive(text: &String) -> (name: Option<String>)
    ensures
        match name {
            Some(found) => grammar::directive_name(text@) == Some(found@),
            None => grammar::directive_name(text@) is None,
        },
{
    let chars = chars_of(text.as_str());
    if chars.len() < 14 {
        None
    } else {
        Some(text_between(&chars, 12, chars.len() - 2))
    }
}

/// The texts joined, with `::` between each two.
fn join_path(segments: &Vec<String>) -> (path: String)
    ensures
        path@ == joined_path(text_models(segments@)),
{
    let ghost models = text_models(segments@);
    let mut path = String::new();
    let mut i: usize = 0;
    assert(models.take(0) =~= Seq::empty());
    while i < segments.len()
        invariant
            i <= segments.len(),
            models == text_models(segments@),
            path@ == joined_path(models.take(i as int)),
        decreases segments.len() - i,
    {
        assert(models.take(i + 1).drop_last() =~= models.take(i as int));
        assert(models.take(i + 1).last() == segments@[i as int]@);
        if i > 0 {
            path.append("::");
        }
        path.append(segments[i].as_str());
        proof {
            if i == 0 {
                assert(path@ =~= segments@[0]@);
            }
        }
        i = i + 1;
    }
    assert(models.take(i as int) =~= models);
    path
}

impl Parser {
    #[verifier::type_invariant]
    spec fn well_formed(&self) -> bool {
        self.current <= self.tokens.len()
    }

    /// The tokens that are parsed.
    pub closed spec fn tokens(&self) -> Seq<TokenView> {
        token_models(self.tokens@)
    }

    /// The position of the token that is looked at next.
    pub closed spec fn position(&self) -> int {
        self.current as int
    }

    /// That a parsing method ended at the position and with the result
    /// that the grammar says.
    pub open spec fn gives<T>(
        position: int,
        result: Result<T, ParseErrorView>,
        wanted: Parsed<T>,
    ) -> bool {
        position == wanted.position && result == wanted.result
    }

    /// A parser at the beginning of the given tokens.
    pub fn new(tokens: Vec<Token>) -> (parser: Self)
        ensures
            parser.tokens() == token_models(tokens@),
            parser.position() == 0,
    {
        Self { tokens, current: 0 }
    }

    /// Parses a complete program: statements up to the end of the
    /// tokens. The first token that does not fit ends the parse.
    pub fn parse(&mut self) -> (result: Result<Program, ParseError>)
        ensures
            final(self).tokens() == old(self).tokens(),
            Self::gives(
                final(self).position(),
                statements_result(result),
                grammar::parse_program(old(self).tokens(), old(self).position()),
            ),
    {
        let mut program: Vec<Statement> = Vec::new();
        assert(statement_models(program@) =~= Seq::empty());
        loop
            invariant
                self.tokens() == old(self).tokens(),
                grammar::parse_program(old(self).tokens(), old(self).position())
                    == grammar::parse_statements(
                    self.tokens(),
                    self.position(),
                    statement_models(program@),
                ),
            decreases remaining(self.tokens(), self.position()),
        {
            if self.is_at_end() {
                return Ok(program);
            }
            let ghost before = statement_models(program@);
            match self.parse_statement() {
                Err(error) => {
                    return Err(error);
                },
                Ok(statement) => {
                    program.push(statement);
                    assert(statement_models(program@) =~= before.push(statement@));
                },
            }
        }
    }

    /// Whether all tokens have been consumed.
    pub fn is_at_end(&self) -> (ended: bool)
        ensures
            ended == (self.position() >= self.tokens().len()),
            0 <= self.position() <= self.tokens().len(),
    {
        proof {
            use_type_invariant(self);
        }
        self.current >= self.tokens.len()
    }

    /// The token that is looked at next, if there is one.
    pub fn peek(&self) -> (token: Option<&Token>)
        ensures
            match token {
                Some(found) => 0 <= self.position() < self.tokens().len() && found@
                    == self.tokens()[self.position()],
                None => self.position() >= self.tokens().len(),
            },
    {
        if self.current < self.tokens.len() {
            Some(&self.tokens[self.current])
        } else {
            None
        }
    }

    /// The token before the one that is looked at next, if there is one.
    pub fn previous(&self) -> (token: Option<Token>)
        ensures
            match token {
                Some(found) => 0 < self.position() <= self.tokens().len() && found@
                    == self.tokens()[self.position() - 1],
                None => self.position() == 0,
            },
    {
        proof {
            use_type_invariant(self);
        }
        if self.current > 0 {
            Some(self.tokens[self.current - 1].clone())
        } else {
            None
        }
    }

    /// Consumes one token, if there is one left, and gives the token
    /// that is then the previous one.
    pub fn advance(&mut self) -> (token: Option<Token>)
        ensures
            final(self).tokens() == old(self).tokens(),
            final(self).position() == if old(self).position() < old(self).tokens().len() {
                old(self).position() + 1
            } else {
                old(self).position()
            },
            match token {
                Some(found) => 0 < final(self).position() <= final(self).tokens().len() && found@
                    == final(self).tokens()[final(self).position() - 1],
                None => final(self).position() == 0,
            },
    {
        if !self.is_at_end() {
            self.skip();
        }
        self.previous()
    }

    /// Whether the token that is looked at next is of the given kind.
    fn check(&self, kind: TokenKind) -> (fits: bool)
        ensures
            fits == has_kind(self.tokens(), self.position(), kind),
            0 <= self.position() <= self.tokens().len(),
    {
        proof {
            use_type_invariant(self);
        }
        self.current < self.tokens.len() && self.tokens[self.current].kind == kind
    }

    /// The kind of the token that is looked at next.
    fn kind_here(&self) -> (kind: TokenKind)
        requires
            self.position() < self.tokens().len(),
        ensures
            0 <= self.position(),
            kind == self.tokens()[self.position()].kind,
    {
        self.tokens[self.current].kind
    }

    /// The text of the token that is looked at next.
    fn text_here(&self) -> (text: &String)
        requires
            self.position() < self.tokens().len(),
        ensures
            0 <= self.position(),
            text@ == self.tokens()[self.position()].text,
    {
        &self.tokens[self.current].text
    }

    /// The error of the token that is looked at next.
    fn misfit(&self) -> (error: ParseError)
        ensures
            error@ == grammar::unexpected(self.tokens(), self.position()),
    {
        if self.current < self.tokens.len() {
            ParseError::UnexpectedToken(self.tokens[self.current].clone())
        } else {
            ParseError::UnexpectedToken(Token::new(TokenKind::Whitespace, String::new()))
        }
    }

    /// Consumes the token that is looked at next.
    fn skip(&mut self)
        requires
            old(self).position() < old(self).tokens().len(),
        ensures
            final(self).tokens() == old(self).tokens(),
            final(self).position() == old(self).position() + 1,
    {
        assert(self.tokens().len() == self.tokens.len());
        self.current = self.current + 1;
    }

    /// Consumes a comma, if one is looked at next.
    fn skip_comma(&mut self)
        ensures
            final(self).tokens() == old(self).tokens(),
            final(self).position() == grammar::skip_comma(old(self).tokens(), old(self).position()),
    {
        if self.check(TokenKind::Comma) {
            self.skip();
        }
    }

    /// Consumes a token of the expected kind. Any other token, and the
    /// end of the input, is an error that carries the token.
    pub fn consume(&mut self, expected: &TokenKind) -> (result: Result<(), ParseError>)
        ensures
            final(self).tokens() == old(self).tokens(),
            match result {
                Ok(_) => has_kind(old(self).tokens(), old(self).position(), *expected)
                    && final(self).position() == old(self).position() + 1,
                Err(error) => !has_kind(old(self).tokens(), old(self).position(), *expected)
                    && final(self).position() == old(self).position() && error@
                    == grammar::unexpected(old(self).tokens(), old(self).position()),
            },
    {
        if self.check(*expected) {
            self.skip();
            Ok(())
        } else {
            Err(self.misfit())
        }
    }

    /// Consumes a token of the expected kind and gives its text.
    fn take(&mut self, expected: TokenKind) -> (result: Result<String, ParseError>)
        ensures
            final(self).tokens() == old(self).tokens(),
            Self::gives(
                final(self).position(),
                text_result(result),
                grammar::expect(old(self).tokens(), old(self).position(), expected),
            ),
    {
        if self.check(expected) {
            let text = self.text_here().clone();
            self.skip();
            Ok(text)
        } else {
            Err(self.misfit())
        }
    }

    /// Consumes the attributes before a statement and gives the name of
    /// the first.
    fn parse_attributes(&mut self) -> (result: Result<Option<String>, ParseError>)
        ensures
            final(self).tokens() == old(self).tokens(),
            Self::gives(
                final(self).position(),
                unit_result(
                    match result {
                        Ok(_) => Ok(()),
                        Err(error) => Err(error),
                    },
                ),
                grammar::parse_attributes(old(self).tokens(), old(self).position()),
            ),
            final(self).position() >= old(self).position(),
            match result {
                Ok(Some(name)) => has_kind(
                    old(self).tokens(),
                    old(self).position(),
                    TokenKind::Attribute,
                ) && grammar::attribute_name(old(self).tokens()[old(self).position()].text) == Some(
                    name@,
                ),
                Ok(None) => !has_kind(old(self).tokens(), old(self).position(), TokenKind::Attribute),
                Err(_) => true,
            },
    {
        let mut first: Option<String> = None;
        while self.check(TokenKind::Attribute)
            invariant
                self.tokens() == old(self).tokens(),
                self.position() >= old(self).position(),
                grammar::parse_attributes(old(self).tokens(), old(self).position())
                    == grammar::parse_attributes(self.tokens(), self.position()),
                match first {
                    Some(name) => has_kind(
                        old(self).tokens(),
                        old(self).position(),
                        TokenKind::Attribute,
                    ) && grammar::attribute_name(old(self).tokens()[old(self).position()].text)
                        == Some(name@),
                    None => self.position() == old(self).position(),
                },
            decreases remaining(self.tokens(), self.position()),
        {
            match name_of_attribute(self.text_here()) {
                None => {
                    return Err(self.misfit());
                },
                Some(name) => {
                    if first.is_none() {
                        first = Some(name);
                    }
                },
            }
            self.skip();
        }
        Ok(first)
    }

    /// Parses names up to a closing parenthesis.
    fn parse_names(&mut self) -> (result: Result<Vec<String>, ParseError>)
        ensures
            final(self).tokens() == old(self).tokens(),
            Self::gives(
                final(self).position(),
                texts_result(result),
                grammar::parse_names(old(self).tokens(), old(self).position(), Seq::empty()),
            ),
            final(self).position() >= old(self).position(),
    {
        let mut names: Vec<String> = Vec::new();
        assert(text_models(names@) =~= Seq::empty());
        loop
            invariant
                self.tokens() == old(self).tokens(),
                self.position() >= old(self).position(),
                grammar::parse_names(old(self).tokens(), old(self).position(), Seq::empty())
                    == grammar::parse_names(self.tokens(), self.position(), text_models(names@)),
            decreases remaining(self.tokens(), self.position()),
        {
            if self.check(TokenKind::RightParen) {
                return Ok(names);
            }
            let ghost before = text_models(names@);
            match self.take(TokenKind::Identifier) {
                Err(error) => {
                    return Err(error);
                },
                Ok(name) => {
                    names.push(name);
                    assert(text_models(names@) =~= before.push(name@));
                },
            }
            self.skip_comma();
        }
    }

    /// Parses a parameter list.
    fn parse_parameters(&mut self) -> (result: Result<Vec<String>, ParseError>)
        ensures
            final(self).tokens() == old(self).tokens(),
            Self::gives(
                final(self).position(),
                texts_result(result),
                grammar::parse_parameters(old(self).tokens(), old(self).position()),
            ),
            result is Ok ==> final(self).position() > old(self).position(),
    {
        match self.consume(&TokenKind::LeftParen) {
            Err(error) => {
                return Err(error);
            },
            Ok(_) => {},
        }
        let names = match self.parse_names() {
            Err(error) => {
                return Err(error);
            },
            Ok(names) => names,
        };
        match self.consume(&TokenKind::RightParen) {
            Err(error) => Err(error),
            Ok(_) => Ok(names),
        }
    }

    /// Parses a path: names with `::` between them.
    pub fn parse_use_path(&mut self) -> (result: Result<String, ParseError>)
        ensures
            final(self).tokens() == old(self).tokens(),
            Self::gives(
                final(self).position(),
                text_result(result),
                grammar::parse_use_path(old(self).tokens(), old(self).position()),
            ),
            result is Ok ==> final(self).position() > old(self).position(),
    {
        let mut segments: Vec<String> = Vec::new();
        assert(text_models(segments@) =~= Seq::empty());
        loop
            invariant
                self.tokens() == old(self).tokens(),
                self.position() >= old(self).position(),
                grammar::parse_segments(old(self).tokens(), old(self).position(), Seq::empty())
                    == grammar::parse_segments(
                    self.tokens(),
                    self.position(),
                    text_models(segments@),
                ),
            decreases remaining(self.tokens(), self.position()),
        {
            let ghost before = text_models(segments@);
            match self.take(TokenKind::Identifier) {
                Err(error) => {
                    return Err(error);
                },
                Ok(name) => {
                    segments.push(name);
                    assert(text_models(segments@) =~= before.push(name@));
                },
            }
            if !self.check(TokenKind::DoubleColon) {
                return Ok(join_path(&segments));
            }
            self.skip();
        }
    }

    /// Parses `use`, a path and `;`.
    fn parse_use(&mut self) -> (result: Result<Statement, ParseError>)
        requires
            old(self).position() < old(self).tokens().len(),
        ensures
            final(self).tokens() == old(self).tokens(),
            Self::gives(
                final(self).position(),
                statement_result(result),
                grammar::parse_use(old(self).tokens(), old(self).position()),
            ),
            result is Ok ==> final(self).position() > old(self).position(),
    {
        self.skip();
        let path = match self.parse_use_path() {
            Err(error) => {
                return Err(error);
            },
            Ok(path) => path,
        };
        match self.consume(&TokenKind::Semicolon) {
            Err(error) => Err(error),
            Ok(_) => Ok(Statement::Use { path }),
        }
    }

    /// Parses two operands between parentheses.
    fn parse_operands(&mut self) -> (result: Result<(Expression, Expression), ParseError>)
        ensures
            final(self).tokens() == old(self).tokens(),
            Self::gives(
                final(self).position(),
                match result {
                    Ok(pair) => Ok((pair.0@, pair.1@)),
                    Err(error) => Err(error@),
                },
                grammar::parse_operands(old(self).tokens(), old(self).position()),
            ),
            result is Ok ==> final(self).position() > old(self).position(),
        decreases remaining(old(self).tokens(), old(self).position()), 1nat,
    {
        match self.consume(&TokenKind::LeftParen) {
            Err(error) => {
                return Err(error);
            },
            Ok(_) => {},
        }
        let first = match self.parse_expression() {
            Err(error) => {
                return Err(error);
            },
            Ok(first) => first,
        };
        match self.consume(&TokenKind::Comma) {
            Err(error) => {
                return Err(error);
            },
            Ok(_) => {},
        }
        let second = match self.parse_expression() {
            Err(error) => {
                return Err(error);
            },
            Ok(second) => second,
        };
        match self.consume(&TokenKind::RightParen) {
            Err(error) => Err(error),
            Ok(_) => Ok((first, second)),
        }
    }

    /// Parses one operand between parentheses.
    fn parse_operand(&mut self) -> (result: Result<Expression, ParseError>)
        ensures
            final(self).tokens() == old(self).tokens(),
            Self::gives(
                final(self).position(),
                expression_result(result),
                grammar::parse_operand(old(self).tokens(), old(self).position()),
            ),
            result is Ok ==> final(self).position() > old(self).position(),
        decreases remaining(old(self).tokens(), old(self).position()), 1nat,
    {
        match self.consume(&TokenKind::LeftParen) {
            Err(error) => {
                return Err(error);
            },
            Ok(_) => {},
        }
        let inner = match self.parse_expression() {
            Err(error) => {
                return Err(error);
            },
            Ok(inner) => inner,
        };
        match self.consume(&TokenKind::RightParen) {
            Err(error) => Err(error),
            Ok(_) => Ok(inner),
        }
    }

    /// Parses the operands of a promise.
    fn parse_promise(&mut self) -> (result: Result<Expression, ParseError>)
        ensures
            final(self).tokens() == old(self).tokens(),
            Self::gives(
                final(self).position(),
                expression_result(result),
                grammar::parse_promise(old(self).tokens(), old(self).position()),
            ),
            result is Ok ==> final(self).position() > old(self).position(),
        decreases remaining(old(self).tokens(), old(self).position()), 1nat,
    {
        match self.consume(&TokenKind::LeftParen) {
            Err(error) => {
                return Err(error);
            },
            Ok(_) => {},
        }
        let value = match self.parse_expression() {
            Err(error) => {
                return Err(error);
            },
            Ok(value) => value,
        };
        if self.check(TokenKind::Comma) {
            self.skip();
            let timeout = match self.parse_expression() {
                Err(error) => {
                    return Err(error);
                },
                Ok(timeout) => timeout,
            };
            match self.consume(&TokenKind::RightParen) {
                Err(error) => Err(error),
                Ok(_) => Ok(
                    Expression::Promise {
                        value: Box::new(value),
                        timeout: Some(Box::new(timeout)),
                    },
                ),
            }
        } else {
            match self.consume(&TokenKind::RightParen) {
                Err(error) => Err(error),
                Ok(_) => Ok(Expression::Promise { value: Box::new(value), timeout: None }),
            }
        }
    }

    /// Parses expressions up to a token of the kind `closer`.
    fn parse_items(&mut self, closer: TokenKind) -> (result: Result<Vec<Expression>, ParseError>)
        ensures
            final(self).tokens() == old(self).tokens(),
            Self::gives(
                final(self).position(),
                expressions_result(result),
                grammar::parse_items(old(self).tokens(), old(self).position(), closer, Seq::empty()),
            ),
            result is Ok ==> final(self).position() >= old(self).position(),
        decreases remaining(old(self).tokens(), old(self).position()), 1nat,
    {
        let mut items: Vec<Expression> = Vec::new();
        assert(expression_models(items@) =~= Seq::empty());
        loop
            invariant
                self.tokens() == old(self).tokens(),
                self.position() >= old(self).position(),
                grammar::parse_items(old(self).tokens(), old(self).position(), closer, Seq::empty())
                    == grammar::parse_items(
                    self.tokens(),
                    self.position(),
                    closer,
                    expression_models(items@),
                ),
            decreases remaining(self.tokens(), self.position()),
        {
            if self.check(closer) {
                return Ok(items);
            }
            if self.is_at_end() {
                return Err(self.misfit());
            }
            let ghost before = expression_models(items@);
            match self.parse_expression() {
                Err(error) => {
                    return Err(error);
                },
                Ok(item) => {
                    items.push(item);
                    assert(expression_models(items@) =~= before.push(item@));
                },
            }
            self.skip_comma();
        }
    }

    /// Parses the elements of an array literal up to `]`.
    fn parse_elements(&mut self) -> (result: Result<Vec<Box<Expression>>, ParseError>)
        ensures
            final(self).tokens() == old(self).tokens(),
            Self::gives(
                final(self).position(),
                match result {
                    Ok(elements) => Ok(element_models(elements@)),
                    Err(error) => Err(error@),
                },
                grammar::parse_items(
                    old(self).tokens(),
                    old(self).position(),
                    TokenKind::RightBracket,
                    Seq::empty(),
                ),
            ),
            result is Ok ==> final(self).position() >= old(self).position(),
        decreases remaining(old(self).tokens(), old(self).position()), 1nat,
    {
        let mut elements: Vec<Box<Expression>> = Vec::new();
        assert(element_models(elements@) =~= Seq::empty());
        loop
            invariant
                self.tokens() == old(self).tokens(),
                self.position() >= old(self).position(),
                grammar::parse_items(
                    old(self).tokens(),
                    old(self).position(),
                    TokenKind::RightBracket,
                    Seq::empty(),
                ) == grammar::parse_items(
                    self.tokens(),
                    self.position(),
                    TokenKind::RightBracket,
                    element_models(elements@),
                ),
            decreases remaining(self.tokens(), self.position()),
        {
            if self.check(TokenKind::RightBracket) {
                return Ok(elements);
            }
            if self.is_at_end() {
                return Err(self.misfit());
            }
            let ghost before = element_models(elements@);
            match self.parse_expression() {
                Err(error) => {
                    return Err(error);
                },
                Ok(element) => {
                    elements.push(Box::new(element));
                    assert(element_models(elements@) =~= before.push(element@));
                },
            }
            self.skip_comma();
        }
    }

    /// Parses the pairs of an object literal up to `}`.
    fn parse_pairs(&mut self) -> (result: Result<Vec<(String, Box<Expression>)>, ParseError>)
        ensures
            final(self).tokens() == old(self).tokens(),
            Self::gives(
                final(self).position(),
                match result {
                    Ok(pairs) => Ok(pair_models(pairs@)),
                    Err(error) => Err(error@),
                },
                grammar::parse_pairs(old(self).tokens(), old(self).position(), Seq::empty()),
            ),
            result is Ok ==> final(self).position() >= old(self).position(),
        decreases remaining(old(self).tokens(), old(self).position()), 1nat,
    {
        let mut pairs: Vec<(String, Box<Expression>)> = Vec::new();
        assert(pair_models(pairs@) =~= Seq::empty());
        loop
            invariant
                self.tokens() == old(self).tokens(),
                self.position() >= old(self).position(),
                grammar::parse_pairs(old(self).tokens(), old(self).position(), Seq::empty())
                    == grammar::parse_pairs(self.tokens(), self.position(), pair_models(pairs@)),
            decreases remaining(self.tokens(), self.position()),
        {
            if self.check(TokenKind::RightBrace) {
                return Ok(pairs);
            }
            let ghost before = pair_models(pairs@);
            let quoted = match self.take(TokenKind::StringLiteral) {
                Err(error) => {
                    return Err(error);
                },
                Ok(quoted) => quoted,
            };
            let key = without_quotes(quoted.as_str());
            match self.consume(&TokenKind::Colon) {
                Err(error) => {
                    return Err(error);
                },
                Ok(_) => {},
            }
            match self.parse_expression() {
                Err(error) => {
                    return Err(error);
                },
                Ok(value) => {
                    pairs.push((key, Box::new(value)));
                    assert(pair_models(pairs@) =~= before.push((key@, value@)));
                },
            }
            self.skip_comma();
        }
    }

    /// Parses the arguments of a call within an expression.
    fn parse_call_arguments(&mut self) -> (result: Result<Vec<Expression>, ParseError>)
        ensures
            final(self).tokens() == old(self).tokens(),
            Self::gives(
                final(self).position(),
                expressions_result(result),
                grammar::parse_call_arguments(old(self).tokens(), old(self).position(), Seq::empty()),
            ),
            result is Ok ==> final(self).position() > old(self).position(),
        decreases remaining(old(self).tokens(), old(self).position()), 1nat,
    {
        let mut arguments: Vec<Expression> = Vec::new();
        assert(expression_models(arguments@) =~= Seq::empty());
        loop
            invariant
                self.tokens() == old(self).tokens(),
                self.position() >= old(self).position(),
                grammar::parse_call_arguments(
                    old(self).tokens(),
                    old(self).position(),
                    Seq::empty(),
                ) == grammar::parse_call_arguments(
                    self.tokens(),
                    self.position(),
                    expression_models(arguments@),
                ),
            decreases remaining(self.tokens(), self.position()),
        {
            if self.is_at_end() {
                return Err(self.misfit());
            }
            let ghost before = expression_models(arguments@);
            match self.parse_expression() {
                Err(error) => {
                    return Err(error);
                },
                Ok(argument) => {
                    arguments.push(argument);
                    assert(expression_models(arguments@) =~= before.push(argument@));
                },
            }
            if !self.check(TokenKind::Comma) {
                return Ok(arguments);
            }
            self.skip();
        }
    }

    /// Parses a call within an expression, after the name of the
    /// function.
    pub fn parse_function_call(&mut self, name: String) -> (result: Result<Expression, ParseError>)
        ensures
            final(self).tokens() == old(self).tokens(),
            Self::gives(
                final(self).position(),
                expression_result(result),
                grammar::parse_function_call(old(self).tokens(), old(self).position(), name@),
            ),
            result is Ok ==> final(self).position() > old(self).position(),
        decreases remaining(old(self).tokens(), old(self).position()), 1nat,
    {
        match self.consume(&TokenKind::LeftParen) {
            Err(error) => {
                return Err(error);
            },
            Ok(_) => {},
        }
        if self.check(TokenKind::RightParen) {
            self.skip();
            let arguments: Vec<Expression> = Vec::new();
            assert(expression_models(arguments@) =~= Seq::empty());
            return Ok(Expression::FunctionCall { name, arguments });
        }
        let arguments = match self.parse_call_arguments() {
            Err(error) => {
                return Err(error);
            },
            Ok(arguments) => arguments,
        };
        match self.consume(&TokenKind::RightParen) {
            Err(error) => Err(error),
            Ok(_) => Ok(Expression::FunctionCall { name, arguments }),
        }
    }

    /// Parses an expression.
    #[verifier::rlimit(40)]
    pub fn parse_expression(&mut self) -> (result: Result<Expression, ParseError>)
        ensures
            final(self).tokens() == old(self).tokens(),
            Self::gives(
                final(self).position(),
                expression_result(result),
                grammar::parse_expression(old(self).tokens(), old(self).position()),
            ),
            result is Ok ==> final(self).position() > old(self).position(),
        decreases remaining(old(self).tokens(), old(self).position()), 0nat,
    {
        if self.is_at_end() {
            return Err(self.misfit());
        }
        let kind = self.kind_here();
        match kind {
            TokenKind::StringLiteral => {
                let text = without_quotes(self.text_here().as_str());
                self.skip();
                Ok(literal_expression(Literal::String(text)))
            },
            TokenKind::NumberLiteral => {
                match read_number(self.text_here().as_str()) {
                    Some(number) => {
                        self.skip();
                        Ok(literal_expression(Literal::Number(number)))
                    },
                    None => Err(ParseError::InvalidNumberLiteral),
                }
            },
            TokenKind::True => {
                self.skip();
                Ok(literal_expression(Literal::Boolean(true)))
            },
            TokenKind::False => {
                self.skip();
                Ok(literal_expression(Literal::Boolean(false)))
            },
            TokenKind::Null => {
                self.skip();
                Ok(literal_expression(Literal::Null))
            },
            TokenKind::Add | TokenKind::Multiply | TokenKind::Index | TokenKind::Equals
            | TokenKind::LessThan => {
                let op = match kind {
                    TokenKind::Add => BinaryOp::Add,
                    TokenKind::Multiply => BinaryOp::Multiply,
                    TokenKind::Index => BinaryOp::Index,
                    TokenKind::Equals => BinaryOp::Equals,
                    _ => BinaryOp::LessThan,
                };
                self.skip();
                match self.parse_operands() {
                    Err(error) => Err(error),
                    Ok(pair) => Ok(
                        Expression::BinaryOp {
                            op,
                            left: Box::new(pair.0),
                            right: Box::new(pair.1),
                        },
                    ),
                }
            },
            TokenKind::Access => {
                self.skip();
                match self.parse_operands() {
                    Err(error) => Err(error),
                    Ok(pair) => Ok(
                        Expression::Access { object: Box::new(pair.0), key: Box::new(pair.1) },
                    ),
                }
            },
            TokenKind::Identifier => {
                let name = self.text_here().clone();
                self.skip();
                if self.check(TokenKind::LeftParen) {
                    self.parse_function_call(name)
                } else {
                    Ok(Expression::Identifier(name))
                }
            },
            TokenKind::LeftBracket => {
                self.skip();
                let elements = match self.parse_elements() {
                    Err(error) => {
                        return Err(error);
                    },
                    Ok(elements) => elements,
                };
                match self.consume(&TokenKind::RightBracket) {
                    Err(error) => Err(error),
                    Ok(_) => Ok(literal_expression(Literal::Array(elements))),
                }
            },
            TokenKind::LeftBrace => {
                self.skip();
                let pairs = match self.parse_pairs() {
                    Err(error) => {
                        return Err(error);
                    },
                    Ok(pairs) => pairs,
                };
                match self.consume(&TokenKind::RightBrace) {
                    Err(error) => Err(error),
                    Ok(_) => Ok(literal_expression(Literal::Object(pairs))),
                }
            },
            TokenKind::Promise => {
                self.skip();
                self.parse_promise()
            },
            TokenKind::Await => {
                self.skip();
                match self.parse_operand() {
                    Err(error) => Err(error),
                    Ok(promise) => Ok(Expression::Await { promise: Box::new(promise) }),
                }
            },
            _ => Err(self.misfit()),
        }
    }

    /// Parses an expression followed by `;`.
    fn parse_expression_statement(&mut self) -> (result: Result<Statement, ParseError>)
        ensures
            final(self).tokens() == old(self).tokens(),
            Self::gives(
                final(self).position(),
                statement_result(result),
                grammar::parse_expression_statement(old(self).tokens(), old(self).position()),
            ),
            result is Ok ==> final(self).position() > old(self).position(),
    {
        let expression = match self.parse_expression() {
            Err(error) => {
                return Err(error);
            },
            Ok(expression) => expression,
        };
        match self.consume(&TokenKind::Semicolon) {
            Err(error) => Err(error),
            Ok(_) => Ok(Statement::Expression(expression)),
        }
    }

    /// Parses `let`, a name, `=`, an expression and `;`.
    fn parse_let_statement(&mut self) -> (result: Result<Statement, ParseError>)
        requires
            old(self).position() < old(self).tokens().len(),
        ensures
            final(self).tokens() == old(self).tokens(),
            Self::gives(
                final(self).position(),
                statement_result(result),
                grammar::parse_let_statement(old(self).tokens(), old(self).position()),
            ),
            result is Ok ==> final(self).position() > old(self).position(),
    {
        self.skip();
        let name = match self.take(TokenKind::Identifier) {
            Err(error) => {
                return Err(error);
            },
            Ok(name) => name,
        };
        match self.consume(&TokenKind::Assignment) {
            Err(error) => {
                return Err(error);
            },
            Ok(_) => {},
        }
        let value = match self.parse_expression() {
            Err(error) => {
                return Err(error);
            },
            Ok(value) => value,
        };
        match self.consume(&TokenKind::Semicolon) {
            Err(error) => Err(error),
            Ok(_) => Ok(Statement::Let { name, value }),
        }
    }

    /// Parses `print`, an expression between parentheses and `;`.
    fn parse_print_statement(&mut self) -> (result: Result<Statement, ParseError>)
        requires
            old(self).position() < old(self).tokens().len(),
        ensures
            final(self).tokens() == old(self).tokens(),
            Self::gives(
                final(self).position(),
                statement_result(result),
                grammar::parse_print_statement(old(self).tokens(), old(self).position()),
            ),
            result is Ok ==> final(self).position() > old(self).position(),
    {
        self.skip();
        let value = match self.parse_operand() {
            Err(error) => {
                return Err(error);
            },
            Ok(value) => value,
        };
        match self.consume(&TokenKind::Semicolon) {
            Err(error) => Err(error),
            Ok(_) => Ok(Statement::Print { value }),
        }
    }

    /// Parses `save`, a string, with or without parentheses round it,
    /// and `;`.
    fn parse_save(&mut self) -> (result: Result<Statement, ParseError>)
        requires
            old(self).position() < old(self).tokens().len(),
        ensures
            final(self).tokens() == old(self).tokens(),
            Self::gives(
                final(self).position(),
                statement_result(result),
                grammar::parse_save(old(self).tokens(), old(self).position()),
            ),
            result is Ok ==> final(self).position() > old(self).position(),
    {
        self.skip();
        let bracketed = self.check(TokenKind::LeftParen);
        if bracketed {
            self.skip();
        }
        let quoted = match self.take(TokenKind::StringLiteral) {
            Err(error) => {
                return Err(error);
            },
            Ok(quoted) => quoted,
        };
        if bracketed {
            match self.consume(&TokenKind::RightParen) {
                Err(error) => {
                    return Err(error);
                },
                Ok(_) => {},
            }
        }
        match self.consume(&TokenKind::Semicolon) {
            Err(error) => Err(error),
            Ok(_) => Ok(Statement::Save { filename: without_quotes(quoted.as_str()) }),
        }
    }

    /// Parses `exit`, `(`, `)` and `;`.
    fn parse_exit(&mut self) -> (result: Result<Statement, ParseError>)
        requires
            old(self).position() < old(self).tokens().len(),
        ensures
            final(self).tokens() == old(self).tokens(),
            Self::gives(
                final(self).position(),
                statement_result(result),
                grammar::parse_exit(old(self).tokens(), old(self).position()),
            ),
            result is Ok ==> final(self).position() > old(self).position(),
    {
        self.skip();
        match self.consume(&TokenKind::LeftParen) {
            Err(error) => {
                return Err(error);
            },
            Ok(_) => {},
        }
        match self.consume(&TokenKind::RightParen) {
            Err(error) => {
                return Err(error);
            },
            Ok(_) => {},
        }
        match self.consume(&TokenKind::Semicolon) {
            Err(error) => Err(error),
            Ok(_) => {
                let arguments: Vec<Expression> = Vec::new();
                assert(expression_models(arguments@) =~= Seq::empty());
                Ok(
                    Statement::Expression(
                        Expression::FunctionCall { name: String::from_str("exit"), arguments },
                    ),
                )
            },
        }
    }

    /// Parses `await`, an expression and `;`.
    fn parse_await(&mut self) -> (result: Result<Statement, ParseError>)
        requires
            old(self).position() < old(self).tokens().len(),
        ensures
            final(self).tokens() == old(self).tokens(),
            Self::gives(
                final(self).position(),
                statement_result(result),
                grammar::parse_await(old(self).tokens(), old(self).position()),
            ),
            result is Ok ==> final(self).position() > old(self).position(),
    {
        self.skip();
        let expression = match self.parse_expression() {
            Err(error) => {
                return Err(error);
            },
            Ok(expression) => expression,
        };
        match self.consume(&TokenKind::Semicolon) {
            Err(error) => Err(error),
            Ok(_) => Ok(Statement::Await { expression }),
        }
    }

    /// Parses statements up to `}`.
    fn parse_body(&mut self) -> (result: Result<Vec<Statement>, ParseError>)
        ensures
            final(self).tokens() == old(self).tokens(),
            Self::gives(
                final(self).position(),
                statements_result(result),
                grammar::parse_body(old(self).tokens(), old(self).position(), Seq::empty()),
            ),
            result is Ok ==> final(self).position() >= old(self).position(),
        decreases remaining(old(self).tokens(), old(self).position()), 5nat,
    {
        let mut body: Vec<Statement> = Vec::new();
        assert(statement_models(body@) =~= Seq::empty());
        loop
            invariant
                self.tokens() == old(self).tokens(),
                self.position() >= old(self).position(),
                grammar::parse_body(old(self).tokens(), old(self).position(), Seq::empty())
                    == grammar::parse_body(self.tokens(), self.position(), statement_models(body@)),
            decreases remaining(self.tokens(), self.position()),
        {
            if self.check(TokenKind::RightBrace) {
                return Ok(body);
            }
            if self.is_at_end() {
                return Err(self.misfit());
            }
            let ghost before = statement_models(body@);
            match self.parse_statement() {
                Err(error) => {
                    return Err(error);
                },
                Ok(statement) => {
                    body.push(statement);
                    assert(statement_models(body@) =~= before.push(statement@));
                },
            }
        }
    }

    /// Parses a block: `{`, statements, `}`.
    fn parse_block(&mut self) -> (result: Result<Vec<Statement>, ParseError>)
        ensures
            final(self).tokens() == old(self).tokens(),
            Self::gives(
                final(self).position(),
                statements_result(result),
                grammar::parse_block(old(self).tokens(), old(self).position()),
            ),
            result is Ok ==> final(self).position() > old(self).position(),
        decreases remaining(old(self).tokens(), old(self).position()), 0nat,
    {
        match self.consume(&TokenKind::LeftBrace) {
            Err(error) => {
                return Err(error);
            },
            Ok(_) => {},
        }
        let body = match self.parse_body() {
            Err(error) => {
                return Err(error);
            },
            Ok(body) => body,
        };
        match self.consume(&TokenKind::RightBrace) {
            Err(error) => Err(error),
            Ok(_) => Ok(body),
        }
    }

    /// Parses `if`, a condition between parentheses, a block, and
    /// optionally `else` and a block.
    fn parse_if_statement(&mut self) -> (result: Result<Statement, ParseError>)
        requires
            old(self).position() < old(self).tokens().len(),
        ensures
            final(self).tokens() == old(self).tokens(),
            Self::gives(
                final(self).position(),
                statement_result(result),
                grammar::parse_if_statement(old(self).tokens(), old(self).position()),
            ),
            result is Ok ==> final(self).position() > old(self).position(),
        decreases remaining(old(self).tokens(), old(self).position()), 2nat,
    {
        self.skip();
        let condition = match self.parse_operand() {
            Err(error) => {
                return Err(error);
            },
            Ok(condition) => condition,
        };
        let then_branch = match self.parse_block() {
            Err(error) => {
                return Err(error);
            },
            Ok(then_branch) => then_branch,
        };
        if self.check(TokenKind::Else) {
            self.skip();
            match self.parse_block() {
                Err(error) => Err(error),
                Ok(statements) => Ok(
                    Statement::If { condition, then_branch, else_branch: Some(statements) },
                ),
            }
        } else {
            Ok(Statement::If { condition, then_branch, else_branch: None })
        }
    }

    /// Parses `loop` and a block.
    fn parse_loop_statement(&mut self) -> (result: Result<Statement, ParseError>)
        requires
            old(self).position() < old(self).tokens().len(),
        ensures
            final(self).tokens() == old(self).tokens(),
            Self::gives(
                final(self).position(),
                statement_result(result),
                grammar::parse_loop_statement(old(self).tokens(), old(self).position()),
            ),
            result is Ok ==> final(self).position() > old(self).position(),
        decreases remaining(old(self).tokens(), old(self).position()), 2nat,
    {
        self.skip();
        match self.parse_block() {
            Err(error) => Err(error),
            Ok(body) => Ok(Statement::Loop { body }),
        }
    }

    /// Parses a name, a parameter list and a block.
    fn parse_declaration(&mut self) -> (result: Result<
        (String, Vec<String>, Vec<Statement>),
        ParseError,
    >)
        ensures
            final(self).tokens() == old(self).tokens(),
            Self::gives(
                final(self).position(),
                match result {
                    Ok(parts) => Ok(
                        grammar::Declaration {
                            name: parts.0@,
                            parameters: text_models(parts.1@),
                            body: statement_models(parts.2@),
                        },
                    ),
                    Err(error) => Err(error@),
                },
                grammar::parse_declaration(old(self).tokens(), old(self).position()),
            ),
            result is Ok ==> final(self).position() > old(self).position(),
        decreases remaining(old(self).tokens(), old(self).position()), 1nat,
    {
        let name = match self.take(TokenKind::Identifier) {
            Err(error) => {
                return Err(error);
            },
            Ok(name) => name,
        };
        let parameters = match self.parse_parameters() {
            Err(error) => {
                return Err(error);
            },
            Ok(parameters) => parameters,
        };
        match self.parse_block() {
            Err(error) => Err(error),
            Ok(body) => Ok((name, parameters, body)),
        }
    }

    /// Parses a function declaration: one token, which is taken for
    /// `fn` whatever it is, then a name, a parameter list and a block.
    pub fn parse_function(&mut self) -> (result: Result<Statement, ParseError>)
        ensures
            final(self).tokens() == old(self).tokens(),
            Self::gives(
                final(self).position(),
                statement_result(result),
                grammar::parse_function(old(self).tokens(), old(self).position()),
            ),
    {
        if !self.is_at_end() {
            self.skip();
        }
        match self.parse_declaration() {
            Err(error) => Err(error),
            Ok(parts) => Ok(Statement::Function { name: parts.0, parameters: parts.1, body: parts.2 }),
        }
    }

    /// Parses `async`, a name, a parameter list and a block.
    fn parse_async(&mut self) -> (result: Result<Statement, ParseError>)
        requires
            old(self).position() < old(self).tokens().len(),
        ensures
            final(self).tokens() == old(self).tokens(),
            Self::gives(
                final(self).position(),
                statement_result(result),
                grammar::parse_async(old(self).tokens(), old(self).position()),
            ),
            result is Ok ==> final(self).position() > old(self).position(),
        decreases remaining(old(self).tokens(), old(self).position()), 2nat,
    {
        self.skip();
        match self.parse_declaration() {
            Err(error) => Err(error),
            Ok(parts) => Ok(
                Statement::AsyncFunction { name: parts.0, parameters: parts.1, body: parts.2 },
            ),
        }
    }

    /// Parses `mod`, a name and a block.
    fn parse_module(&mut self) -> (result: Result<Statement, ParseError>)
        requires
            old(self).position() < old(self).tokens().len(),
        ensures
            final(self).tokens() == old(self).tokens(),
            Self::gives(
                final(self).position(),
                statement_result(result),
                grammar::parse_module(old(self).tokens(), old(self).position()),
            ),
            result is Ok ==> final(self).position() > old(self).position(),
        decreases remaining(old(self).tokens(), old(self).position()), 2nat,
    {
        self.skip();
        let name = match self.take(TokenKind::Identifier) {
            Err(error) => {
                return Err(error);
            },
            Ok(name) => name,
        };
        match self.parse_block() {
            Err(error) => Err(error),
            Ok(body) => Ok(Statement::Module { name, body }),
        }
    }

    /// Parses `try`, a block, and optionally `catch`, a name and a
    /// block.
    fn parse_try(&mut self) -> (result: Result<Statement, ParseError>)
        requires
            old(self).position() < old(self).tokens().len(),
        ensures
            final(self).tokens() == old(self).tokens(),
            Self::gives(
                final(self).position(),
                statement_result(result),
                grammar::parse_try(old(self).tokens(), old(self).position()),
            ),
            result is Ok ==> final(self).position() > old(self).position(),
        decreases remaining(old(self).tokens(), old(self).position()), 2nat,
    {
        self.skip();
        let try_block = match self.parse_block() {
            Err(error) => {
                return Err(error);
            },
            Ok(try_block) => try_block,
        };
        if !self.check(TokenKind::Catch) {
            let catch_block: Vec<Statement> = Vec::new();
            assert(statement_models(catch_block@) =~= Seq::empty());
            return Ok(Statement::TryCatch { try_block, error_var: String::new(), catch_block });
        }
        self.skip();
        let error_var = match self.take(TokenKind::Identifier) {
            Err(error) => {
                return Err(error);
            },
            Ok(error_var) => error_var,
        };
        match self.parse_block() {
            Err(error) => Err(error),
            Ok(catch_block) => Ok(Statement::TryCatch { try_block, error_var, catch_block }),
        }
    }

    /// Parses a statement that begins with a name.
    #[verifier::rlimit(40)]
    fn parse_named(&mut self) -> (result: Result<Statement, ParseError>)
        ensures
            final(self).tokens() == old(self).tokens(),
            Self::gives(
                final(self).position(),
                statement_result(result),
                grammar::parse_named(old(self).tokens(), old(self).position()),
            ),
            result is Ok ==> final(self).position() > old(self).position(),
        decreases remaining(old(self).tokens(), old(self).position()), 2nat,
    {
        let name = match self.take(TokenKind::Identifier) {
            Err(error) => {
                return Err(error);
            },
            Ok(name) => name,
        };
        if !self.check(TokenKind::LeftParen) {
            return match self.consume(&TokenKind::Semicolon) {
                Err(error) => Err(error),
                Ok(_) => Ok(Statement::Expression(Expression::Identifier(name))),
            };
        }
        self.skip();
        let arguments = match self.parse_items(TokenKind::RightParen) {
            Err(error) => {
                return Err(error);
            },
            Ok(arguments) => arguments,
        };
        match self.consume(&TokenKind::RightParen) {
            Err(error) => {
                return Err(error);
            },
            Ok(_) => {},
        }
        if self.check(TokenKind::LeftBrace) {
            match self.parse_block() {
                Err(error) => Err(error),
                Ok(body) => Ok(
                    Statement::Function { name, parameters: names_among(&arguments), body },
                ),
            }
        } else {
            match self.consume(&TokenKind::Semicolon) {
                Err(error) => Err(error),
                Ok(_) => Ok(Statement::Expression(Expression::FunctionCall { name, arguments })),
            }
        }
    }

    /// Parses a statement without the attributes before it.
    #[verifier::rlimit(40)]
    fn parse_plain_statement(&mut self) -> (result: Result<Statement, ParseError>)
        ensures
            final(self).tokens() == old(self).tokens(),
            Self::gives(
                final(self).position(),
                statement_result(result),
                grammar::parse_plain_statement(old(self).tokens(), old(self).position()),
            ),
            result is Ok ==> final(self).position() > old(self).position(),
        decreases remaining(old(self).tokens(), old(self).position()), 3nat,
    {
        if self.is_at_end() {
            return Err(self.misfit());
        }
        let kind = self.kind_here();
        match kind {
            TokenKind::Module => self.parse_module(),
            TokenKind::Use => self.parse_use(),
            TokenKind::Let => self.parse_let_statement(),
            TokenKind::Directive => {
                match name_of_directive(self.text_here()) {
                    None => Err(self.misfit()),
                    Some(name) => {
                        self.skip();
                        match self.parse_statement() {
                            Err(error) => Err(error),
                            Ok(statement) => Ok(
                                Statement::Attributed { name, statement: Box::new(statement) },
                            ),
                        }
                    },
                }
            },
            TokenKind::Print => self.parse_print_statement(),
            TokenKind::If => self.parse_if_statement(),
            TokenKind::Loop => self.parse_loop_statement(),
            TokenKind::Save => self.parse_save(),
            TokenKind::Exit => self.parse_exit(),
            TokenKind::Async => self.parse_async(),
            TokenKind::Try => self.parse_try(),
            TokenKind::Await => self.parse_await(),
            TokenKind::Identifier => self.parse_named(),
            _ => self.parse_expression_statement(),
        }
    }

    /// Parses a statement, with the attributes before it.
    pub fn parse_statement(&mut self) -> (result: Result<Statement, ParseError>)
        ensures
            final(self).tokens() == old(self).tokens(),
            Self::gives(
                final(self).position(),
                statement_result(result),
                grammar::parse_statement(old(self).tokens(), old(self).position()),
            ),
            result is Ok ==> final(self).position() > old(self).position(),
        decreases remaining(old(self).tokens(), old(self).position()), 4nat,
    {
        let first = match self.parse_attributes() {
            Err(error) => {
                return Err(error);
            },
            Ok(first) => first,
        };
        match self.parse_plain_statement() {
            Err(error) => Err(error),
            Ok(statement) => match first {
                Some(name) => Ok(Statement::Attributed { name, statement: Box::new(statement) }),
                None => Ok(statement),
            },
        }
    }
}

} // verus!
