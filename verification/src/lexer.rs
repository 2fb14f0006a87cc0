//! The tokenizer.
//!
//! Source text is cut into lexemes by maximal munch: at each position the
//! longest lexeme that some rule accepts is taken. Whitespace and comments
//! are lexemes that give no token. A character with which no lexeme
//! begins is a lexeme of its own, and gives no token either. A double
//! quote that is never closed is a lexeme with all that follows it, up to
//! the end of the input, and gives no token.

use vstd::prelude::*;
use crate::text::{chars_of, text_between};
use crate::value::same_text;

verus! {

/// The kinds of tokens.
#[derive(Debug, Clone, Copy, PartialEq, Eq, Hash, Structural)]
pub enum TokenKind {
    /// `print`
    Print,
    /// `let`
    Let,
    /// `if`
    If,
    /// `else`
    Else,
    /// `loop`
    Loop,
    /// `save`
    Save,
    /// `add`
    Add,
    /// `multiply`
    Multiply,
    /// `(`
    LeftParen,
    /// `)`
    RightParen,
    /// `{`
    LeftBrace,
    /// `}`
    RightBrace,
    /// `;`
    Semicolon,
    /// `=`
    Assignment,
    /// `,`
    Comma,
    /// A string between double quotes, with its quotes.
    StringLiteral,
    /// A run of decimal digits.
    NumberLiteral,
    /// `true`
    True,
    /// `false`
    False,
    /// A name: a letter or `_`, then letters, digits and `_`.
    Identifier,
    /// A run of blanks, tabs, newlines and form feeds. The tokenizer
    /// never gives this token; the parser uses it, with an empty text,
    /// to stand for the end of the input.
    Whitespace,
    /// `//` up to and with the end of the line. The tokenizer never
    /// gives this token.
    Comment,
    /// `exit`
    Exit,
    /// `[`
    LeftBracket,
    /// `]`
    RightBracket,
    /// `:`
    Colon,
    /// `null`
    Null,
    /// `index`
    Index,
    /// `access`
    Access,
    /// `equals`
    Equals,
    /// `lessThan`
    LessThan,
    /// `promise`
    Promise,
    /// `await`
    Await,
    /// `async`
    Async,
    /// `try`
    Try,
    /// `catch`
    Catch,
    /// `mod`
    Module,
    /// `use`
    Use,
    /// `::`
    DoubleColon,
    /// `#[name]` or `#[name(parameters)]`
    Attribute,
    /// `#[directive(name)]`
    Directive,
}

/// A token: its kind and the text it was cut from.
#[derive(Debug, PartialEq)]
pub struct Token {
    /// The kind of the token.
    pub kind: TokenKind,
    /// The exact text of the token.
    pub text: String,
}

/// Model of a [`Token`].
pub ghost struct TokenView {
    pub kind: TokenKind,
    pub text: Seq<char>,
}

impl View for Token {
    type V = TokenView;

    open spec fn view(&self) -> TokenView {
        TokenView { kind: self.kind, text: self.text@ }
    }
}

/// The models of a sequence of tokens.
pub open spec fn token_models(tokens: Seq<Token>) -> Seq<TokenView> {
    Seq::new(tokens.len(), |i: int| tokens[i]@)
}

impl Token {
    /// A token of the given kind and text.
    pub fn new(kind: TokenKind, text: String) -> (token: Self)
        ensures
            token@ == (TokenView { kind, text: text@ }),
    {
        Self { kind, text }
    }
}

impl Clone for Token {
    fn clone(&self) -> (copy: Self)
        ensures
            copy@ == self@,
    {
        Token { kind: self.kind, text: self.text.clone() }
    }
}

/// The classes of characters of which lexemes are made.
#[derive(Debug, Clone, Copy, PartialEq, Eq, Structural)]
pub enum CharClass {
    /// Blank, tab, newline and form feed.
    Space,
    /// The decimal digits.
    Digit,
    /// The letters `a` to `z` and `A` to `Z`, and `_`.
    WordStart,
    /// The letters, the digits and `_`.
    Word,
    /// Everything but the double quote.
    StringBody,
    /// Everything but the newline.
    CommentBody,
    /// Everything but the closing parenthesis.
    ParameterBody,
}

/// Whether a character belongs to a class.
pub open spec fn in_class(class: CharClass, ch: char) -> bool {
    match class {
        CharClass::Space => ch == ' ' || ch == '\t' || ch == '\n' || ch == '\u{c}',
        CharClass::Digit => '0' <= ch <= '9',
        CharClass::WordStart => 'a' <= ch <= 'z' || 'A' <= ch <= 'Z' || ch == '_',
        CharClass::Word => 'a' <= ch <= 'z' || 'A' <= ch <= 'Z' || ch == '_' || '0' <= ch
            <= '9',
        CharClass::StringBody => ch != '"',
        CharClass::CommentBody => ch != '\n',
        CharClass::ParameterBody => ch != ')',
    }
}

/// The end of the longest run of characters of a class that begins at
/// `from`.
pub open spec fn run_end(input: Seq<char>, from: int, class: CharClass) -> int
    decreases input.len() - from,
{
    if 0 <= from < input.len() && in_class(class, input[from]) {
        run_end(input, from + 1, class)
    } else {
        from
    }
}

/// Whether the character at `at` is `ch`.
pub open spec fn is_at(input: Seq<char>, at: int, ch: char) -> bool {
    0 <= at < input.len() && input[at] == ch
}

/// The keyword that a word is, if it is one.
pub open spec fn keyword(word: Seq<char>) -> Option<TokenKind> {
    if word == "print"@ {
        Some(TokenKind::Print)
    } else if word == "let"@ {
        Some(TokenKind::Let)
    } else if word == "if"@ {
        Some(TokenKind::If)
    } else if word == "else"@ {
        Some(TokenKind::Else)
    } else if word == "loop"@ {
        Some(TokenKind::Loop)
    } else if word == "save"@ {
        Some(TokenKind::Save)
    } else if word == "add"@ {
        Some(TokenKind::Add)
    } else if word == "multiply"@ {
        Some(TokenKind::Multiply)
    } else if word == "true"@ {
        Some(TokenKind::True)
    } else if word == "false"@ {
        Some(TokenKind::False)
    } else if word == "exit"@ {
        Some(TokenKind::Exit)
    } else if word == "null"@ {
        Some(TokenKind::Null)
    } else if word == "index"@ {
        Some(TokenKind::Index)
    } else if word == "access"@ {
        Some(TokenKind::Access)
    } else if word == "equals"@ {
        Some(TokenKind::Equals)
    } else if word == "lessThan"@ {
        Some(TokenKind::LessThan)
    } else if word == "promise"@ {
        Some(TokenKind::Promise)
    } else if word == "await"@ {
        Some(TokenKind::Await)
    } else if word == "async"@ {
        Some(TokenKind::Async)
    } else if word == "try"@ {
        Some(TokenKind::Try)
    } else if word == "catch"@ {
        Some(TokenKind::Catch)
    } else if word == "mod"@ {
        Some(TokenKind::Module)
    } else if word == "use"@ {
        Some(TokenKind::Use)
    } else {
        None
    }
}

/// A lexeme: where it ends, and the kind of token it gives, if it gives
/// one.
pub ghost struct Lexeme {
    /// The kind of the token, or `None` for a lexeme that is skipped.
    pub kind: Option<TokenKind>,
    /// The position after the last character of the lexeme.
    pub end: int,
}

/// A lexeme that is skipped.
pub open spec fn skipped(end: int) -> Lexeme {
    Lexeme { kind: None, end }
}

/// A lexeme that gives a token.
pub open spec fn token_until(kind: TokenKind, end: int) -> Lexeme {
    Lexeme { kind: Some(kind), end }
}

/// The lexeme that begins with `#` at `at`: an attribute is `#[`, a
/// name, optionally parameters between parentheses, and `]`. It is a
/// directive when its name is `directive` and its parameters are one
/// name. Anything else skips the `#`.
pub open spec fn scan_attribute(input: Seq<char>, at: int) -> Lexeme {
    let name_end = run_end(input, at + 2, CharClass::Word);
    let parameters_end = run_end(input, name_end + 1, CharClass::ParameterBody);
    if !is_at(input, at + 1, '[') || !(at + 2 < input.len() && in_class(
        CharClass::WordStart,
        input[at + 2],
    )) {
        skipped(at + 1)
    } else if is_at(input, name_end, ']') {
        token_until(TokenKind::Attribute, name_end + 1)
    } else if is_at(input, name_end, '(') && is_at(input, parameters_end, ')') && is_at(
        input,
        parameters_end + 1,
        ']',
    ) {
        if input.subrange(at + 2, name_end) == "directive"@ && name_end + 1 < parameters_end
            && in_class(CharClass::WordStart, input[name_end + 1]) && run_end(
            input,
            name_end + 1,
            CharClass::Word,
        ) == parameters_end {
            token_until(TokenKind::Directive, parameters_end + 2)
        } else {
            token_until(TokenKind::Attribute, parameters_end + 2)
        }
    } else {
        skipped(at + 1)
    }
}

/// The lexeme that begins at `at`.
pub open spec fn scan(input: Seq<char>, at: int) -> Lexeme
    recommends
        0 <= at < input.len(),
{
    let ch = input[at];
    if in_class(CharClass::Space, ch) {
        skipped(run_end(input, at, CharClass::Space))
    } else if ch == '/' && is_at(input, at + 1, '/') {
        let body_end = run_end(input, at + 2, CharClass::CommentBody);
        if body_end < input.len() {
            skipped(body_end + 1)
        } else {
            skipped(body_end)
        }
    } else if ch == '(' {
        token_until(TokenKind::LeftParen, at + 1)
    } else if ch == ')' {
        token_until(TokenKind::RightParen, at + 1)
    } else if ch == '{' {
        token_until(TokenKind::LeftBrace, at + 1)
    } else if ch == '}' {
        token_until(TokenKind::RightBrace, at + 1)
    } else if ch == '[' {
        token_until(TokenKind::LeftBracket, at + 1)
    } else if ch == ']' {
        token_until(TokenKind::RightBracket, at + 1)
    } else if ch == ';' {
        token_until(TokenKind::Semicolon, at + 1)
    } else if ch == ',' {
        token_until(TokenKind::Comma, at + 1)
    } else if ch == '=' {
        token_until(TokenKind::Assignment, at + 1)
    } else if ch == ':' {
        if is_at(input, at + 1, ':') {
            token_until(TokenKind::DoubleColon, at + 2)
        } else {
            token_until(TokenKind::Colon, at + 1)
        }
    } else if ch == '"' {
        let body_end = run_end(input, at + 1, CharClass::StringBody);
        if body_end < input.len() {
            token_until(TokenKind::StringLiteral, body_end + 1)
        } else {
            skipped(body_end)
        }
    } else if in_class(CharClass::Digit, ch) {
        token_until(TokenKind::NumberLiteral, run_end(input, at, CharClass::Digit))
    } else if in_class(CharClass::WordStart, ch) {
        let end = run_end(input, at, CharClass::Word);
        match keyword(input.subrange(at, end)) {
            Some(kind) => token_until(kind, end),
            None => token_until(TokenKind::Identifier, end),
        }
    } else if ch == '#' {
        scan_attribute(input, at)
    } else {
        skipped(at + 1)
    }
}

/// A run ends at or after its beginning, and within the input.
pub proof fn lemma_run_end_bounds(input: Seq<char>, from: int, class: CharClass)
    requires
        0 <= from <= input.len(),
    ensures
        from <= run_end(input, from, class) <= input.len(),
        run_end(input, from, class) < input.len() ==> !in_class(
            class,
            input[run_end(input, from, class)],
        ),
        0 <= from < input.len() && in_class(class, input[from]) ==> run_end(input, from, class)
            > from,
    decreases input.len() - from,
{
    if from < input.len() && in_class(class, input[from]) {
        lemma_run_end_bounds(input, from + 1, class);
    }
}

/// Every lexeme has at least one character and ends within the input.
pub proof fn lemma_scan_advances(input: Seq<char>, at: int)
    requires
        0 <= at < input.len(),
    ensures
        at < scan(input, at).end <= input.len(),
{
    lemma_run_end_bounds(input, at, CharClass::Space);
    lemma_run_end_bounds(input, at, CharClass::Digit);
    lemma_run_end_bounds(input, at, CharClass::Word);
    lemma_run_end_bounds(input, at + 1, CharClass::StringBody);
    if at + 2 <= input.len() {
        lemma_run_end_bounds(input, at + 2, CharClass::CommentBody);
        lemma_run_end_bounds(input, at + 2, CharClass::Word);
        let name_end = run_end(input, at + 2, CharClass::Word);
        if name_end + 1 <= input.len() {
            lemma_run_end_bounds(input, name_end + 1, CharClass::ParameterBody);
        }
    }
}

/// The tokens of the input from position `from` on.
pub open spec fn tokens_from(input: Seq<char>, from: int) -> Seq<TokenView>
    decreases input.len() - from,
{
    if 0 <= from < input.len() {
        let lexeme = scan(input, from);
        proof {
            lemma_scan_advances(input, from);
        }
        match lexeme.kind {
            Some(kind) => seq![TokenView { kind, text: input.subrange(from, lexeme.end) }]
                + tokens_from(input, lexeme.end),
            None => tokens_from(input, lexeme.end),
        }
    } else {
        Seq::empty()
    }
}

/// The tokens of a text.
pub open spec fn tokens_of(input: Seq<char>) -> Seq<TokenView> {
    tokens_from(input, 0)
}

/// The position at which the next token at or after `from` begins, or
/// the length of the input if there is none.
pub open spec fn next_token_start(input: Seq<char>, from: int) -> int
    decreases input.len() - from,
{
    if 0 <= from < input.len() {
        let lexeme = scan(input, from);
        proof {
            lemma_scan_advances(input, from);
        }
        if lexeme.kind is Some {
            from
        } else {
            next_token_start(input, lexeme.end)
        }
    } else {
        input.len() as int
    }
}

fn belongs(class: CharClass, ch: char) -> (inside: bool)
    ensures
        inside == in_class(class, ch),
{
    match class {
        CharClass::Space => ch == ' ' || ch == '\t' || ch == '\n' || ch == '\u{c}',
        CharClass::Digit => ch >= '0' && ch <= '9',
        CharClass::WordStart => (ch >= 'a' && ch <= 'z') || (ch >= 'A' && ch <= 'Z') || ch == '_',
        CharClass::Word => (ch >= 'a' && ch <= 'z') || (ch >= 'A' && ch <= 'Z') || ch == '_' || (
        ch >= '0' && ch <= '9'),
        CharClass::StringBody => ch != '"',
        CharClass::CommentBody => ch != '\n',
        CharClass::ParameterBody => ch != ')',
    }
}

fn has_at(chars: &Vec<char>, at: usize, ch: char) -> (found: bool)
    ensures
        found == is_at(chars@, at as int, ch),
{
    at < chars.len() && chars[at] == ch
}

fn find_run_end(chars: &Vec<char>, from: usize, class: CharClass) -> (end: usize)
    requires
        from <= chars.len(),
    ensures
        end == run_end(chars@, from as int, class),
        from <= end <= chars.len(),
{
    let mut end: usize = from;
    while end < chars.len() && belongs(class, chars[end])
        invariant
            from <= end <= chars.len(),
            run_end(chars@, from as int, class) == run_end(chars@, end as int, class),
        decreases chars.len() - end,
    {
        end = end + 1;
    }
    end
}

fn keyword_kind(word: &String) -> (kind: Option<TokenKind>)
    ensures
        kind == keyword(word@),
{
    if same_text(word, "print") {
        Some(TokenKind::Print)
    } else if same_text(word, "let") {
        Some(TokenKind::Let)
    } else if same_text(word, "if") {
        Some(TokenKind::If)
    } else if same_text(word, "else") {
        Some(TokenKind::Else)
    } else if same_text(word, "loop") {
        Some(TokenKind::Loop)
    } else if same_text(word, "save") {
        Some(TokenKind::Save)
    } else if same_text(word, "add") {
        Some(TokenKind::Add)
    } else if same_text(word, "multiply") {
        Some(TokenKind::Multiply)
    } else if same_text(word, "true") {
        Some(TokenKind::True)
    } else if same_text(word, "false") {
        Some(TokenKind::False)
    } else if same_text(word, "exit") {
        Some(TokenKind::Exit)
    } else if same_text(word, "null") {
        Some(TokenKind::Null)
    } else if same_text(word, "index") {
        Some(TokenKind::Index)
    } else if same_text(word, "access") {
        Some(TokenKind::Access)
    } else if same_text(word, "equals") {
        Some(TokenKind::Equals)
    } else if same_text(word, "lessThan") {
        Some(TokenKind::LessThan)
    } else if same_text(word, "promise") {
        Some(TokenKind::Promise)
    } else if same_text(word, "await") {
        Some(TokenKind::Await)
    } else if same_text(word, "async") {
        Some(TokenKind::Async)
    } else if same_text(word, "try") {
        Some(TokenKind::Try)
    } else if same_text(word, "catch") {
        Some(TokenKind::Catch)
    } else if same_text(word, "mod") {
        Some(TokenKind::Module)
    } else if same_text(word, "use") {
        Some(TokenKind::Use)
    } else {
        None
    }
}

fn scan_attribute_at(chars: &Vec<char>, at: usize) -> (found: (Option<TokenKind>, usize))
    requires
        at < chars.len(),
    ensures
        found.0 == scan_attribute(chars@, at as int).kind,
        found.1 == scan_attribute(chars@, at as int).end,
        at < found.1 <= chars.len(),
{
    if !has_at(chars, at + 1, '[') || !(at + 2 < chars.len() && belongs(
        CharClass::WordStart,
        chars[at + 2],
    )) {
        return (None, at + 1);
    }
    let name_end = find_run_end(chars, at + 2, CharClass::Word);
    if has_at(chars, name_end, ']') {
        return (Some(TokenKind::Attribute), name_end + 1);
    }
    if !has_at(chars, name_end, '(') {
        return (None, at + 1);
    }
    let parameters_end = find_run_end(chars, name_end + 1, CharClass::ParameterBody);
    if !(has_at(chars, parameters_end, ')') && has_at(chars, parameters_end + 1, ']')) {
        return (None, at + 1);
    }
    let name = text_between(chars, at + 2, name_end);
    if same_text(&name, "directive") && name_end + 1 < parameters_end && belongs(
        CharClass::WordStart,
        chars[name_end + 1],
    ) && find_run_end(chars, name_end + 1, CharClass::Word) == parameters_end {
        (Some(TokenKind::Directive), parameters_end + 2)
    } else {
        (Some(TokenKind::Attribute), parameters_end + 2)
    }
}

fn scan_at(chars: &Vec<char>, at: usize) -> (found: (Option<TokenKind>, usize))
    requires
        at < chars.len(),
    ensures
        found.0 == scan(chars@, at as int).kind,
        found.1 == scan(chars@, at as int).end,
        at < found.1 <= chars.len(),
{
    proof {
        lemma_scan_advances(chars@, at as int);
    }
    let ch = chars[at];
    if belongs(CharClass::Space, ch) {
        (None, find_run_end(chars, at, CharClass::Space))
    } else if ch == '/' && has_at(chars, at + 1, '/') {
        let body_end = find_run_end(chars, at + 2, CharClass::CommentBody);
        if body_end < chars.len() {
            (None, body_end + 1)
        } else {
            (None, body_end)
        }
    } else if ch == '(' {
        (Some(TokenKind::LeftParen), at + 1)
    } else if ch == ')' {
        (Some(TokenKind::RightParen), at + 1)
    } else if ch == '{' {
        (Some(TokenKind::LeftBrace), at + 1)
    } else if ch == '}' {
        (Some(TokenKind::RightBrace), at + 1)
    } else if ch == '[' {
        (Some(TokenKind::LeftBracket), at + 1)
    } else if ch == ']' {
        (Some(TokenKind::RightBracket), at + 1)
    } else if ch == ';' {
        (Some(TokenKind::Semicolon), at + 1)
    } else if ch == ',' {
        (Some(TokenKind::Comma), at + 1)
    } else if ch == '=' {
        (Some(TokenKind::Assignment), at + 1)
    } else if ch == ':' {
        if has_at(chars, at + 1, ':') {
            (Some(TokenKind::DoubleColon), at + 2)
        } else {
            (Some(TokenKind::Colon), at + 1)
        }
    } else if ch == '"' {
        let body_end = find_run_end(chars, at + 1, CharClass::StringBody);
        if body_end < chars.len() {
            (Some(TokenKind::StringLiteral), body_end + 1)
        } else {
            (None, body_end)
        }
    } else if belongs(CharClass::Digit, ch) {
        (Some(TokenKind::NumberLiteral), find_run_end(chars, at, CharClass::Digit))
    } else if belongs(CharClass::WordStart, ch) {
        let end = find_run_end(chars, at, CharClass::Word);
        let word = text_between(chars, at, end);
        match keyword_kind(&word) {
            Some(kind) => (Some(kind), end),
            None => (Some(TokenKind::Identifier), end),
        }
    } else if ch == '#' {
        scan_attribute_at(chars, at)
    } else {
        (None, at + 1)
    }
}

/// A tokenizer over one source text.
pub struct Lexer {
    chars: Vec<char>,
    position: usize,
}

impl Lexer {
    #[verifier::type_invariant]
    spec fn well_formed(&self) -> bool {
        self.position <= self.chars.len()
    }

    /// The text that is tokenized.
    pub closed spec fn input(&self) -> Seq<char> {
        self.chars@
    }

    /// The position up to which the text has been tokenized.
    pub closed spec fn position(&self) -> int {
        self.position as int
    }

    /// A tokenizer at the beginning of the given text.
    pub fn new(input: &str) -> (lexer: Self)
        ensures
            lexer.input() == input@,
            lexer.position() == 0,
    {
        Lexer { chars: chars_of(input), position: 0 }
    }

    /// The next token, or `None` at the end of the text. Lexemes that
    /// give no token are passed over.
    pub fn next(&mut self) -> (token: Option<Token>)
        ensures
            final(self).input() == old(self).input(),
            0 <= old(self).position() <= final(self).position() <= old(self).input().len(),
            tokens_from(old(self).input(), old(self).position()) == match token {
                Some(found) => seq![found@] + tokens_from(
                    final(self).input(),
                    final(self).position(),
                ),
                None => Seq::<TokenView>::empty(),
            },
            token is None ==> final(self).position() == old(self).input().len(),
            token is Some ==> final(self).position() > old(self).position(),
            token matches Some(found) ==> {
                let start = next_token_start(old(self).input(), old(self).position());
                &&& start + found@.text.len() == final(self).position()
                &&& found@.text == old(self).input().subrange(start, final(self).position())
                &&& scan(old(self).input(), start) == token_until(
                    found@.kind,
                    final(self).position(),
                )
            },
    {
        proof {
            use_type_invariant(&*self);
        }
        let mut at: usize = self.position;
        while at < self.chars.len()
            invariant
                self.chars == old(self).chars,
                old(self).position <= at <= self.chars.len(),
                tokens_from(old(self).input(), old(self).position()) == tokens_from(
                    self.chars@,
                    at as int,
                ),
                next_token_start(old(self).input(), old(self).position()) == next_token_start(
                    self.chars@,
                    at as int,
                ),
            decreases self.chars.len() - at,
        {
            let found = scan_at(&self.chars, at);
            match found.0 {
                Some(kind) => {
                    let text = text_between(&self.chars, at, found.1);
                    self.position = found.1;
                    return Some(Token { kind, text });
                },
                None => {
                    at = found.1;
                },
            }
        }
        self.position = at;
        None
    }

    /// All the tokens that are left, in order.
    pub fn collect(self) -> (tokens: Vec<Token>)
        ensures
            token_models(tokens@) == tokens_from(self.input(), self.position()),
    {
        let mut lexer = self;
        let mut tokens: Vec<Token> = Vec::new();
        assert(token_models(tokens@) =~= Seq::empty());
        loop
            invariant
                lexer.input() == self.input(),
                tokens_from(self.input(), self.position()) == token_models(tokens@) + tokens_from(
                    lexer.input(),
                    lexer.position(),
                ),
            ensures
                token_models(tokens@) == tokens_from(self.input(), self.position()),
            decreases lexer.input().len() - lexer.position(),
        {
            let ghost before = token_models(tokens@);
            match lexer.next() {
                Some(token) => {
                    tokens.push(token);
                    assert(token_models(tokens@) =~= before + seq![token@]);
                    assert(before + (seq![token@] + tokens_from(lexer.input(), lexer.position()))
                        =~= before + seq![token@] + tokens_from(lexer.input(), lexer.position()));
                },
                None => {
                    assert(before + Seq::<TokenView>::empty() =~= before);
                    break ;
                },
            }
        }
        tokens
    }
}

/// Cuts a text into tokens.
pub fn tokenize(input: &str) -> (tokens: Vec<Token>)
    ensures
        token_models(tokens@) == tokens_of(input@),
{
    Lexer::new(input).collect()
}

/// The positions at which the tokens of the input from position `from`
/// on begin.
pub open spec fn token_starts(input: Seq<char>, from: int) -> Seq<int>
    decreases input.len() - from,
{
    if 0 <= from < input.len() {
        let lexeme = scan(input, from);
        proof {
            lemma_scan_advances(input, from);
        }
        match lexeme.kind {
            Some(_) => seq![from] + token_starts(input, lexeme.end),
            None => token_starts(input, lexeme.end),
        }
    } else {
        Seq::empty()
    }
}

/// That the token `token` is the lexeme of the input that begins at
/// `start`: its text is the text of the input from `start` on, it is not
/// empty, and it is what scanning at `start` gives.
pub open spec fn is_lexeme_at(input: Seq<char>, token: TokenView, start: int) -> bool {
    &&& 0 <= start
    &&& token.text.len() > 0
    &&& start + token.text.len() <= input.len()
    &&& token.text == input.subrange(start, start + token.text.len())
    &&& scan(input, start) == token_until(token.kind, start + token.text.len())
}

/// The tokens of a text are its lexemes, in order: each token is the
/// lexeme at its start, the first begins at or after `from`, and each
/// further one begins at or after the end of the one before it. So the
/// texts of the tokens, one after the other, are the lexemes of the
/// input that are not skipped, in the order of the input, and none
/// overlaps another.
pub proof fn law_tokens_are_the_lexemes_in_order(input: Seq<char>, from: int)
    requires
        0 <= from <= input.len(),
    ensures
        token_starts(input, from).len() == tokens_from(input, from).len(),
        forall|i: int|
            0 <= i < tokens_from(input, from).len() ==> is_lexeme_at(
                input,
                #[trigger] tokens_from(input, from)[i],
                token_starts(input, from)[i],
            ),
        tokens_from(input, from).len() > 0 ==> from <= token_starts(input, from)[0],
        forall|i: int|
            0 <= i && i + 1 < tokens_from(input, from).len() ==> token_starts(input, from)[i]
                + (#[trigger] tokens_from(input, from)[i]).text.len() <= token_starts(
                input,
                from,
            )[i + 1],
    decreases input.len() - from,
{
    if from < input.len() {
        let lexeme = scan(input, from);
        lemma_scan_advances(input, from);
        law_tokens_are_the_lexemes_in_order(input, lexeme.end);
        let rest = tokens_from(input, lexeme.end);
        let rest_starts = token_starts(input, lexeme.end);
        match lexeme.kind {
            Some(kind) => {
                let first = TokenView { kind, text: input.subrange(from, lexeme.end) };
                let tokens = tokens_from(input, from);
                let starts = token_starts(input, from);
                assert(tokens == seq![first] + rest);
                assert(starts == seq![from] + rest_starts);
                assert(is_lexeme_at(input, first, from));
                assert forall|i: int| 0 <= i < tokens.len() implies is_lexeme_at(
                    input,
                    #[trigger] tokens[i],
                    starts[i],
                ) by {
                    if i > 0 {
                        assert(tokens[i] == rest[i - 1]);
                        assert(starts[i] == rest_starts[i - 1]);
                    }
                }
                assert forall|i: int| 0 <= i && i + 1 < tokens.len() implies starts[i] + (
                #[trigger] tokens[i]).text.len() <= starts[i + 1] by {
                    assert(starts[i + 1] == rest_starts[i]);
                    if i > 0 {
                        assert(tokens[i] == rest[i - 1]);
                        assert(starts[i] == rest_starts[i - 1]);
                    }
                }
            },
            None => {},
        }
    }
}

} // verus!
