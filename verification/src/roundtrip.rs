//! Tokenizing is a round trip: the texts of the tokens of an input,
//! written one after the other with a blank between each two, tokenize
//! to the same tokens again.

use vstd::prelude::*;
use vstd::string::StringExecFns;
use crate::lexer::{token_models, Token};
use crate::lexer::{
    in_class, is_at, law_tokens_are_the_lexemes_in_order, lemma_run_end_bounds,
    lemma_scan_advances, run_end, scan, scan_attribute, token_starts, token_until, tokens_from,
    tokens_of, CharClass, Lexeme, TokenView,
};

verus! {

/// The texts of tokens, one after the other with a blank between each
/// two.
pub open spec fn rebuilt(tokens: Seq<TokenView>) -> Seq<char>
    decreases tokens.len(),
{
    if tokens.len() == 0 {
        Seq::empty()
    } else if tokens.len() == 1 {
        tokens[0].text
    } else {
        tokens[0].text + seq![' '] + rebuilt(tokens.drop_first())
    }
}

/// A run in the rest of a text is the run in the whole text, moved.
proof fn lemma_run_moves(front: Seq<char>, rest: Seq<char>, from: int, class: CharClass)
    requires
        0 <= from <= rest.len(),
    ensures
        run_end(front + rest, front.len() + from, class) == front.len() + run_end(rest, from, class),
    decreases rest.len() - from,
{
    let whole = front + rest;
    if from < rest.len() {
        assert(whole[front.len() + from] == rest[from]);
        if in_class(class, rest[from]) {
            lemma_run_moves(front, rest, from + 1, class);
        }
    }
}

/// The runs that scanning at `at` may look at, in the rest of a text and
/// in the whole text.
proof fn lemma_runs_move(front: Seq<char>, rest: Seq<char>, at: int)
    requires
        0 <= at < rest.len(),
    ensures
        ({
            let whole = front + rest;
            let shift = front.len() as int;
            let name_end = run_end(rest, at + 2, CharClass::Word);
            &&& run_end(whole, shift + at, CharClass::Space) == shift + run_end(
                rest,
                at,
                CharClass::Space,
            )
            &&& run_end(whole, shift + at, CharClass::Digit) == shift + run_end(
                rest,
                at,
                CharClass::Digit,
            )
            &&& run_end(whole, shift + at, CharClass::Word) == shift + run_end(
                rest,
                at,
                CharClass::Word,
            )
            &&& run_end(whole, shift + at + 1, CharClass::StringBody) == shift + run_end(
                rest,
                at + 1,
                CharClass::StringBody,
            )
            &&& run_end(whole, shift + at + 2, CharClass::CommentBody) == shift + run_end(
                rest,
                at + 2,
                CharClass::CommentBody,
            )
            &&& run_end(whole, shift + at + 2, CharClass::Word) == shift + name_end
            &&& run_end(whole, shift + name_end + 1, CharClass::ParameterBody) == shift + run_end(
                rest,
                name_end + 1,
                CharClass::ParameterBody,
            )
            &&& run_end(whole, shift + name_end + 1, CharClass::Word) == shift + run_end(
                rest,
                name_end + 1,
                CharClass::Word,
            )
            &&& at + 2 <= rest.len() ==> at + 2 <= name_end <= rest.len()
        }),
{
    let name_end = run_end(rest, at + 2, CharClass::Word);
    lemma_run_moves(front, rest, at, CharClass::Space);
    lemma_run_moves(front, rest, at, CharClass::Digit);
    lemma_run_moves(front, rest, at, CharClass::Word);
    lemma_run_moves(front, rest, at + 1, CharClass::StringBody);
    if at + 2 <= rest.len() {
        lemma_run_moves(front, rest, at + 2, CharClass::CommentBody);
        lemma_run_moves(front, rest, at + 2, CharClass::Word);
        lemma_run_end_bounds(rest, at + 2, CharClass::Word);
        if name_end + 1 <= rest.len() {
            lemma_run_moves(front, rest, name_end + 1, CharClass::ParameterBody);
            lemma_run_moves(front, rest, name_end + 1, CharClass::Word);
        }
    }
}

/// That a lexeme is another one, moved by `shift`.
pub open spec fn moved(lexeme: Lexeme, shift: int, other: Lexeme) -> bool {
    lexeme.kind == other.kind && lexeme.end == shift + other.end
}

/// The character at a position of the rest of a text is the character of
/// the whole text at the moved position.
proof fn lemma_chars_move(front: Seq<char>, rest: Seq<char>)
    ensures
        forall|k: int| 0 <= k < rest.len() ==> (#[trigger] (front + rest)[front.len() + k]) == rest[k],
        (front + rest).len() == front.len() + rest.len(),
{
}

#[verifier::rlimit(40)]
proof fn lemma_attribute_moves(front: Seq<char>, rest: Seq<char>, at: int)
    requires
        0 <= at < rest.len(),
    ensures
        moved(scan_attribute(front + rest, front.len() + at), front.len() as int, scan_attribute(rest, at)),
{
    let whole = front + rest;
    let shift = front.len() as int;
    lemma_runs_move(front, rest, at);
    lemma_chars_move(front, rest);
    let name_end = run_end(rest, at + 2, CharClass::Word);
    let parameters_end = run_end(rest, name_end + 1, CharClass::ParameterBody);
    assert(is_at(whole, shift + at + 1, '[') == is_at(rest, at + 1, '[')) by {
        if at + 1 < rest.len() {
            assert(whole[shift + (at + 1)] == rest[at + 1]);
        }
    }
    if at + 2 < rest.len() {
        assert(whole[shift + (at + 2)] == rest[at + 2]);
        lemma_run_end_bounds(rest, at + 2, CharClass::Word);
        assert(is_at(whole, shift + name_end, ']') == is_at(rest, name_end, ']')) by {
            if name_end < rest.len() {
                assert(whole[shift + name_end] == rest[name_end]);
            }
        }
        assert(is_at(whole, shift + name_end, '(') == is_at(rest, name_end, '(')) by {
            if name_end < rest.len() {
                assert(whole[shift + name_end] == rest[name_end]);
            }
        }
        if name_end + 1 <= rest.len() {
            lemma_run_end_bounds(rest, name_end + 1, CharClass::ParameterBody);
            assert(is_at(whole, shift + parameters_end, ')') == is_at(rest, parameters_end, ')'))
                by {
                if parameters_end < rest.len() {
                    assert(whole[shift + parameters_end] == rest[parameters_end]);
                }
            }
            assert(is_at(whole, shift + parameters_end + 1, ']') == is_at(
                rest,
                parameters_end + 1,
                ']',
            )) by {
                if parameters_end + 1 < rest.len() {
                    assert(whole[shift + (parameters_end + 1)] == rest[parameters_end + 1]);
                }
            }
            if name_end + 1 < rest.len() {
                assert(whole[shift + (name_end + 1)] == rest[name_end + 1]);
            }
        }
        assert(whole.subrange(shift + at + 2, shift + name_end) =~= rest.subrange(
            at + 2,
            name_end,
        ));
    }
}

/// Scanning in the rest of a text is scanning in the whole text, moved.
#[verifier::rlimit(40)]
proof fn lemma_scan_moves(front: Seq<char>, rest: Seq<char>, at: int)
    requires
        0 <= at < rest.len(),
    ensures
        moved(scan(front + rest, front.len() + at), front.len() as int, scan(rest, at)),
{
    let whole = front + rest;
    let shift = front.len() as int;
    lemma_runs_move(front, rest, at);
    lemma_chars_move(front, rest);
    lemma_attribute_moves(front, rest, at);
    assert(whole[shift + at] == rest[at]);
    assert(is_at(whole, shift + at + 1, '/') == is_at(rest, at + 1, '/')) by {
        if at + 1 < rest.len() {
            assert(whole[shift + (at + 1)] == rest[at + 1]);
        }
    }
    assert(is_at(whole, shift + at + 1, ':') == is_at(rest, at + 1, ':')) by {
        if at + 1 < rest.len() {
            assert(whole[shift + (at + 1)] == rest[at + 1]);
        }
    }
    lemma_run_end_bounds(rest, at, CharClass::Word);
    let end = run_end(rest, at, CharClass::Word);
    assert(whole.subrange(shift + at, shift + end) =~= rest.subrange(at, end));
}

/// The tokens of the rest of a text are the tokens of the whole text
/// from where the rest begins.
proof fn lemma_tokens_move(front: Seq<char>, rest: Seq<char>, from: int)
    requires
        0 <= from <= rest.len(),
    ensures
        tokens_from(front + rest, front.len() + from) == tokens_from(rest, from),
    decreases rest.len() - from,
{
    let whole = front + rest;
    let shift = front.len() as int;
    if from < rest.len() {
        lemma_scan_moves(front, rest, from);
        lemma_scan_advances(rest, from);
        let lexeme = scan(rest, from);
        lemma_tokens_move(front, rest, lexeme.end);
        assert(whole.subrange(shift + from, shift + lexeme.end) =~= rest.subrange(from, lexeme.end));
    }
}

/// A run in a text that agrees with another text on its first `window`
/// characters: a run that ends within the window ends at the same place
/// in both, and a run that reaches the end of the window ends there in
/// the other text, if that text ends there or goes on with a character
/// outside the class.
proof fn lemma_run_in_window(
    text: Seq<char>,
    other: Seq<char>,
    window: int,
    from: int,
    class: CharClass,
)
    requires
        0 <= from <= window,
        window <= text.len(),
        window <= other.len(),
        forall|k: int| 0 <= k < window ==> text[k] == other[k],
    ensures
        run_end(text, from, class) < window ==> run_end(other, from, class) == run_end(
            text,
            from,
            class,
        ),
        run_end(text, from, class) >= window && (window == other.len() || !in_class(
            class,
            other[window],
        )) ==> run_end(other, from, class) == window,
    decreases window - from,
{
    lemma_run_end_bounds(text, from, class);
    if from < window {
        assert(text[from] == other[from]);
        if in_class(class, text[from]) {
            lemma_run_in_window(text, other, window, from + 1, class);
        }
    }
}

/// A lexeme that gives a token stands alone: its text, alone or followed
/// by a blank and anything, scans to the same token.
#[verifier::rlimit(40)]
proof fn lemma_token_stands_alone(text: Seq<char>, length: int, after: Seq<char>)
    requires
        0 < length <= text.len(),
        scan(text, 0).kind is Some,
        scan(text, 0).end == length,
        after.len() == 0 || after[0] == ' ',
    ensures
        scan(text.take(length) + after, 0) == scan(text, 0),
{
    let other = text.take(length) + after;
    assert(other.len() == length + after.len());
    assert forall|k: int| 0 <= k < length implies text[k] == other[k] by {}
    assert(length == other.len() || other[length] == ' ');
    assert(text[0] == other[0]);
    let ch = text[0];
    if ch == '#' {
        lemma_attribute_stands_alone(text, other, length);
    } else if ch == '"' {
        lemma_run_in_window(text, other, length, 1, CharClass::StringBody);
        lemma_run_end_bounds(text, 1, CharClass::StringBody);
    } else if ch == ':' {
        if length >= 2 {
            assert(text[1] == other[1]);
        }
    } else if in_class(CharClass::Digit, ch) {
        lemma_run_in_window(text, other, length, 0, CharClass::Digit);
    } else if in_class(CharClass::WordStart, ch) {
        lemma_run_in_window(text, other, length, 0, CharClass::Word);
        assert(other.subrange(0, length) =~= text.subrange(0, length));
    } else {
        if length >= 2 {
            assert(text[1] == other[1]);
        }
    }
}

/// An attribute or a directive stands alone.
#[verifier::rlimit(40)]
proof fn lemma_attribute_stands_alone(text: Seq<char>, other: Seq<char>, length: int)
    requires
        0 < length <= text.len(),
        length <= other.len(),
        text[0] == '#',
        scan_attribute(text, 0).kind is Some,
        scan_attribute(text, 0).end == length,
        forall|k: int| 0 <= k < length ==> text[k] == other[k],
        length == other.len() || other[length] == ' ',
    ensures
        scan_attribute(other, 0) == scan_attribute(text, 0),
{
    let name_end = run_end(text, 2, CharClass::Word);
    let parameters_end = run_end(text, name_end + 1, CharClass::ParameterBody);
    assert(is_at(text, 1, '['));
    assert(2 < text.len() && in_class(CharClass::WordStart, text[2]));
    lemma_run_end_bounds(text, 2, CharClass::Word);
    assert(name_end < length) by {
        if name_end + 1 <= text.len() {
            lemma_run_end_bounds(text, name_end + 1, CharClass::ParameterBody);
        }
    }
    assert(text[1] == other[1]);
    assert(text[2] == other[2]);
    lemma_run_in_window(text, other, length, 2, CharClass::Word);
    assert(run_end(other, 2, CharClass::Word) == name_end);
    assert(text[name_end] == other[name_end]);
    assert(other.subrange(2, name_end) =~= text.subrange(2, name_end));
    if !is_at(text, name_end, ']') {
        lemma_run_end_bounds(text, name_end + 1, CharClass::ParameterBody);
        assert(parameters_end + 2 == length);
        lemma_run_in_window(text, other, length, name_end + 1, CharClass::ParameterBody);
        assert(run_end(other, name_end + 1, CharClass::ParameterBody) == parameters_end);
        assert(text[parameters_end] == other[parameters_end]);
        assert(text[parameters_end + 1] == other[parameters_end + 1]);
        lemma_run_in_window(text, other, length, name_end + 1, CharClass::Word);
        lemma_run_end_bounds(text, name_end + 1, CharClass::Word);
        if name_end + 1 < length {
            assert(text[name_end + 1] == other[name_end + 1]);
        }
    }
}

/// The first character of the text of a token is no blank.
proof fn lemma_token_begins_with_no_blank(text: Seq<char>)
    requires
        0 < text.len(),
        scan(text, 0).kind is Some,
    ensures
        !in_class(CharClass::Space, text[0]),
{
}

/// A token that is a lexeme of an input stands alone: its text is not
/// empty, does not begin with a blank and, alone or followed by a blank
/// and anything, scans to the token.
proof fn lemma_lexeme_stands_alone(
    input: Seq<char>,
    token: TokenView,
    start: int,
    after: Seq<char>,
)
    requires
        crate::lexer::is_lexeme_at(input, token, start),
        after.len() == 0 || after[0] == ' ',
    ensures
        token.text.len() > 0,
        !in_class(CharClass::Space, token.text[0]),
        scan(token.text + after, 0) == token_until(token.kind, token.text.len() as int),
{
    let length = token.text.len() as int;
    let front = input.take(start);
    let back = input.skip(start);
    assert(front + back =~= input);
    lemma_scan_moves(front, back, 0);
    assert(scan(back, 0) == token_until(token.kind, length));
    assert(back.take(length) =~= token.text);
    lemma_token_begins_with_no_blank(back);
    assert(back[0] == token.text[0]);
    lemma_token_stands_alone(back, length, after);
}

/// The tokens of a text that is one token, a blank, and a tail that does
/// not begin with a blank: the token, and the tokens of the tail.
#[verifier::rlimit(40)]
proof fn lemma_tokens_after_blank(first: TokenView, tail: Seq<char>)
    requires
        first.text.len() > 0,
        tail.len() > 0,
        !in_class(CharClass::Space, tail[0]),
        scan(first.text + (seq![' '] + tail), 0) == token_until(first.kind, first.text.len() as int),
    ensures
        tokens_of(first.text + seq![' '] + tail) == seq![first] + tokens_of(tail),
{
    let length = first.text.len() as int;
    let text = first.text + seq![' '] + tail;
    assert(text =~= first.text + (seq![' '] + tail));
    assert(text.subrange(0, length) =~= first.text);
    assert(text[length] == ' ');
    assert(text[length + 1] == tail[0]);
    assert(run_end(text, length + 1, CharClass::Space) == length + 1);
    assert(run_end(text, length, CharClass::Space) == length + 1);
    assert(scan(text, length) == crate::lexer::skipped(length + 1));
    let head = first.text + seq![' '];
    assert(head + tail =~= text);
    lemma_tokens_move(head, tail, 0);
    lemma_scan_advances(text, 0);
    lemma_scan_advances(text, length);
    assert(tokens_from(text, length) == tokens_from(text, length + 1));
    assert(tokens_from(text, 0) == seq![first] + tokens_from(text, length));
}

/// The texts of tokens that are lexemes of one input, written one after
/// the other with a blank between each two, tokenize to those tokens.
#[verifier::rlimit(40)]
proof fn lemma_rebuilt_tokenizes(input: Seq<char>, tokens: Seq<TokenView>, starts: Seq<int>)
    requires
        starts.len() == tokens.len(),
        forall|i: int|
            0 <= i < tokens.len() ==> crate::lexer::is_lexeme_at(
                input,
                #[trigger] tokens[i],
                starts[i],
            ),
    ensures
        tokens_of(rebuilt(tokens)) == tokens,
        tokens.len() > 0 ==> rebuilt(tokens).len() > 0 && !in_class(
            CharClass::Space,
            rebuilt(tokens)[0],
        ),
    decreases tokens.len(),
{
    if tokens.len() > 0 {
        let first = tokens[0];
        let length = first.text.len() as int;
        assert(crate::lexer::is_lexeme_at(input, first, starts[0]));
        if tokens.len() == 1 {
            let text = rebuilt(tokens);
            lemma_lexeme_stands_alone(input, first, starts[0], Seq::empty());
            assert(first.text + Seq::<char>::empty() =~= text);
            assert(text.subrange(0, length) =~= first.text);
            assert(tokens_from(text, length) =~= Seq::<TokenView>::empty());
            assert(tokens_of(text) =~= tokens);
        } else {
            let rest = tokens.drop_first();
            let rest_starts = starts.drop_first();
            assert forall|i: int| 0 <= i < rest.len() implies crate::lexer::is_lexeme_at(
                input,
                #[trigger] rest[i],
                rest_starts[i],
            ) by {
                assert(rest[i] == tokens[i + 1]);
                assert(rest_starts[i] == starts[i + 1]);
            }
            lemma_rebuilt_tokenizes(input, rest, rest_starts);
            let tail = rebuilt(rest);
            lemma_lexeme_stands_alone(input, first, starts[0], seq![' '] + tail);
            lemma_tokens_after_blank(first, tail);
            assert(rebuilt(tokens) == first.text + seq![' '] + tail);
            assert(seq![first] + rest =~= tokens);
        }
    }
}

/// Tokenizing is a round trip: the texts of the tokens of an input,
/// written one after the other with a blank between each two, tokenize
/// to the tokens of the input. Nothing but the lexemes that are skipped
/// is lost, and nothing changes its kind, its text or its place in the
/// order.
pub proof fn law_round_trip(input: Seq<char>)
    ensures
        tokens_of(rebuilt(tokens_of(input))) == tokens_of(input),
{
    law_tokens_are_the_lexemes_in_order(input, 0);
    lemma_rebuilt_tokenizes(input, tokens_of(input), token_starts(input, 0));
}

/// What is left to write of the texts of tokens once the first `done` of
/// them are written.
pub open spec fn left_to_write(tokens: Seq<TokenView>, done: int) -> Seq<char> {
    if done <= 0 {
        rebuilt(tokens)
    } else if done >= tokens.len() {
        Seq::empty()
    } else {
        seq![' '] + rebuilt(tokens.skip(done))
    }
}

/// Writes the texts of tokens one after the other, with a blank between
/// each two.
pub fn rebuild(tokens: &Vec<Token>) -> (text: String)
    ensures
        text@ == rebuilt(token_models(tokens@)),
{
    let ghost models = token_models(tokens@);
    let mut text = String::new();
    let mut i: usize = 0;
    assert(text@ + left_to_write(models, 0) =~= rebuilt(models));
    while i < tokens.len()
        invariant
            i <= tokens.len(),
            models == token_models(tokens@),
            text@ + left_to_write(models, i as int) == rebuilt(models),
        decreases tokens.len() - i,
    {
        let ghost before = text@;
        let ghost rest = models.skip(i as int);
        assert(rest.len() == models.len() - i);
        assert(rest[0] == tokens@[i as int]@);
        assert(rest.drop_first() =~= models.skip(i + 1));
        assert(models.skip(0) =~= models);
        if i > 0 {
            text.append(" ");
            proof {
                reveal_strlit(" ");
                assert(" "@ =~= seq![' ']);
            }
        }
        text.append(tokens[i].text.as_str());
        i = i + 1;
        proof {
            let expected = before + left_to_write(models, i - 1);
            if rest.len() == 1 {
                assert(rebuilt(rest) == rest[0].text);
                assert(text@ + left_to_write(models, i as int) =~= expected);
            } else {
                assert(rebuilt(rest) == rest[0].text + seq![' '] + rebuilt(rest.drop_first()));
                assert(text@ + left_to_write(models, i as int) =~= expected);
            }
        }
    }
    assert(text@ + left_to_write(models, i as int) =~= text@);
    text
}

} // verus!
