//! The lexical specification: a step machine over the source characters.
use vstd::prelude::*;
use super::token::{TokenKindG, TokenKindView, TokenG, TokenView};
use super::error::LexErrorView;

verus! {

pub open spec fn is_ascii_alpha(c: char) -> bool {
    ('a' <= c && c <= 'z') || ('A' <= c && c <= 'Z')
}

pub open spec fn is_ascii_digit(c: char) -> bool {
    '0' <= c && c <= '9'
}

pub open spec fn is_ident_start(c: char) -> bool {
    is_ascii_alpha(c) || c == '_'
}

pub open spec fn is_ident_char(c: char) -> bool {
    is_ascii_alpha(c) || is_ascii_digit(c) || c == '_'
}

/// Numeric value of a decimal digit sequence.
pub open spec fn digits_value(s: Seq<char>) -> nat
    decreases s.len(),
{
    if s.len() == 0 {
        0
    } else {
        10 * digits_value(s.drop_last()) + ((s.last() as int - '0' as int) as nat)
    }
}

/// First index at or after `p` that does not hold a space.
pub open spec fn skip_spaces(src: Seq<char>, p: int) -> int
    decreases src.len() - p,
{
    if 0 <= p < src.len() && src[p] == ' ' { skip_spaces(src, p + 1) } else { p }
}

/// First index at or after `p` that holds a line feed (or the end).
pub open spec fn skip_to_newline(src: Seq<char>, p: int) -> int
    decreases src.len() - p,
{
    if 0 <= p < src.len() && src[p] != '\n' { skip_to_newline(src, p + 1) } else { p }
}

/// First index at or after `p` that does not continue an identifier.
pub open spec fn skip_ident(src: Seq<char>, p: int) -> int
    decreases src.len() - p,
{
    if 0 <= p < src.len() && is_ident_char(src[p]) { skip_ident(src, p + 1) } else { p }
}

/// First index at or after `p` that does not hold a decimal digit.
pub open spec fn skip_digits(src: Seq<char>, p: int) -> int
    decreases src.len() - p,
{
    if 0 <= p < src.len() && is_ascii_digit(src[p]) { skip_digits(src, p + 1) } else { p }
}

/// First index at or after `p` that holds a double quote or a line feed (or the end).
pub open spec fn skip_string_body(src: Seq<char>, p: int) -> int
    decreases src.len() - p,
{
    if 0 <= p < src.len() && src[p] != '"' && src[p] != '\n' {
        skip_string_body(src, p + 1)
    } else {
        p
    }
}

/// The lexer's state between two steps.
pub struct LexSt {
    pub pos: int,
    pub line: int,
    pub col: int,
    pub stack: Seq<usize>,
    pub als: bool,
    pub toks: Seq<TokenView>,
}

/// Outcome of one step of the lexer.
pub enum Step {
    Next(LexSt),
    Stop(LexSt),
    Fail(LexSt, LexErrorView),
}

pub open spec fn tok(kind: TokenKindView, line: int, col: int) -> TokenView {
    TokenG { kind, line: line as usize, column: col as usize }
}

/// A token placed just behind the cursor (the character just consumed).
pub open spec fn tok_behind(kind: TokenKindView, st: LexSt) -> TokenView {
    tok(kind, st.line, if st.col > 1 { st.col - 1 } else { 1 })
}

pub open spec fn lex_err(msg: Seq<char>, line: int, col: int) -> LexErrorView {
    LexErrorView { message: msg, line: line as usize, column: col as usize }
}

pub open spec fn msg_tabs() -> Seq<char> {
    "Tabs are strictly forbidden. Use spaces for indentation."@
}

pub open spec fn msg_file_indent() -> Seq<char> {
    "File starting with indentation is not allowed"@
}

pub open spec fn msg_inconsistent() -> Seq<char> {
    "Inconsistent indentation"@
}

pub open spec fn msg_unterminated() -> Seq<char> {
    "Unterminated string literal"@
}

pub open spec fn msg_invalid_number() -> Seq<char> {
    "Invalid number literal"@
}

pub open spec fn msg_float() -> Seq<char> {
    "Float numbers are not supported in v0.1"@
}

pub open spec fn msg_overflow() -> Seq<char> {
    "Integer overflow: number literal is too large to fit in i64"@
}

pub open spec fn msg_bang() -> Seq<char> {
    "Unexpected character '!'"@
}

pub open spec fn msg_unexpected(c: char) -> Seq<char> {
    "Unexpected character '"@ + seq![c] + "'"@
}

/// The kind of a word: a keyword, or an identifier.
pub open spec fn word_kind(t: Seq<char>) -> TokenKindView {
    if t == "let"@ {
        TokenKindG::Let
    } else if t == "if"@ {
        TokenKindG::If
    } else if t == "else"@ {
        TokenKindG::Else
    } else if t == "for"@ {
        TokenKindG::For
    } else if t == "in"@ {
        TokenKindG::In
    } else if t == "while"@ {
        TokenKindG::While
    } else if t == "function"@ {
        TokenKindG::Func
    } else if t == "return"@ {
        TokenKindG::Return
    } else if t == "write"@ {
        TokenKindG::Write
    } else if t == "true"@ {
        TokenKindG::True
    } else if t == "false"@ {
        TokenKindG::False
    } else if t == "nil"@ {
        TokenKindG::Nil
    } else if t == "and"@ {
        TokenKindG::And
    } else if t == "or"@ {
        TokenKindG::Or
    } else if t == "not"@ {
        TokenKindG::Not
    } else {
        TokenKindG::Identifier(t)
    }
}

/// Moves the cursor from `st.pos` to `p` on the same line.
pub open spec fn move_to(st: LexSt, p: int) -> LexSt {
    LexSt { pos: p, col: st.col + (p - st.pos), ..st }
}

/// Starts a new line at `p`.
pub open spec fn new_line_at(st: LexSt, p: int) -> LexSt {
    LexSt { pos: p, line: st.line + 1, col: 1, als: true, ..st }
}

pub open spec fn push_tok(st: LexSt, t: TokenView) -> LexSt {
    LexSt { toks: st.toks.push(t), ..st }
}

/// Operators of two characters: `c` followed by `second` gives `two`,
/// alone gives `single`.
pub open spec fn two_char_op(
    src: Seq<char>,
    st1: LexSt,
    second: char,
    two: TokenKindView,
    single: TokenKindView,
) -> Step {
    let start_col = st1.col - 1;
    if st1.pos < src.len() && src[st1.pos] == second {
        Step::Next(push_tok(move_to(st1, st1.pos + 1), tok(two, st1.line, start_col)))
    } else {
        Step::Next(push_tok(st1, tok(single, st1.line, start_col)))
    }
}

/// Kind of a single-character operator or delimiter.
pub open spec fn single_char_kind(c: char) -> Option<TokenKindView> {
    if c == '+' {
        Some(TokenKindG::Plus)
    } else if c == '-' {
        Some(TokenKindG::Minus)
    } else if c == '/' {
        Some(TokenKindG::Divide)
    } else if c == '%' {
        Some(TokenKindG::Modulo)
    } else if c == '(' {
        Some(TokenKindG::LParen)
    } else if c == ')' {
        Some(TokenKindG::RParen)
    } else if c == '[' {
        Some(TokenKindG::LBracket)
    } else if c == ']' {
        Some(TokenKindG::RBracket)
    } else if c == '{' {
        Some(TokenKindG::LBrace)
    } else if c == '}' {
        Some(TokenKindG::RBrace)
    } else if c == ',' {
        Some(TokenKindG::Comma)
    } else if c == ':' {
        Some(TokenKindG::Colon)
    } else {
        None
    }
}

/// A string literal whose opening quote was just consumed (`st1.pos` is after it).
pub open spec fn lex_string(src: Seq<char>, st1: LexSt) -> Step {
    let start_col = st1.col - 1;
    let e = skip_string_body(src, st1.pos);
    if e >= src.len() || src[e] == '\n' {
        Step::Fail(move_to(st1, e), lex_err(msg_unterminated(), st1.line, start_col))
    } else {
        Step::Next(
            push_tok(
                move_to(st1, e + 1),
                tok(TokenKindG::String(src.subrange(st1.pos, e)), st1.line, start_col),
            ),
        )
    }
}

/// A word whose first character was just consumed.
pub open spec fn lex_word(src: Seq<char>, st1: LexSt) -> Step {
    let start = st1.pos - 1;
    let e = skip_ident(src, st1.pos);
    Step::Next(
        push_tok(move_to(st1, e), tok(word_kind(src.subrange(start, e)), st1.line, st1.col - 1)),
    )
}

/// A number whose first digit was just consumed.
pub open spec fn lex_number(src: Seq<char>, st1: LexSt) -> Step {
    let start = st1.pos - 1;
    let start_col = st1.col - 1;
    let e = skip_digits(src, st1.pos);
    let ste = move_to(st1, e);
    if e < src.len() && is_ident_start(src[e]) {
        Step::Fail(ste, lex_err(msg_invalid_number(), st1.line, start_col))
    } else if e < src.len() && src[e] == '.' {
        Step::Fail(ste, lex_err(msg_float(), st1.line, start_col))
    } else if digits_value(src.subrange(start, e)) > i64::MAX {
        Step::Fail(ste, lex_err(msg_overflow(), st1.line, start_col))
    } else {
        Step::Next(
            push_tok(
                ste,
                tok(TokenKindG::Number(digits_value(src.subrange(start, e)) as i64), st1.line, start_col),
            ),
        )
    }
}

/// Consumes the character at `st.pos` (inside a line) and acts on it.
pub open spec fn dispatch(src: Seq<char>, st: LexSt) -> Step {
    let c = src[st.pos];
    let st1 = move_to(st, st.pos + 1);
    if c == ' ' || c == '\r' {
        Step::Next(st1)
    } else if c == '\t' {
        Step::Fail(st1, lex_err(msg_tabs(), st1.line, st1.col - 1))
    } else if c == '\n' {
        Step::Next(new_line_at(push_tok(st1, tok_behind(TokenKindG::Newline, st1)), st1.pos))
    } else if c == '#' {
        Step::Next(move_to(st1, skip_to_newline(src, st1.pos)))
    } else if c == '=' {
        two_char_op(src, st1, '=', TokenKindG::Equal, TokenKindG::Assign)
    } else if c == '!' {
        if st1.pos < src.len() && src[st1.pos] == '=' {
            Step::Next(push_tok(move_to(st1, st1.pos + 1), tok(TokenKindG::NotEqual, st1.line, st1.col - 1)))
        } else {
            Step::Fail(st1, lex_err(msg_bang(), st1.line, st1.col - 1))
        }
    } else if c == '>' {
        two_char_op(src, st1, '=', TokenKindG::GreaterEqual, TokenKindG::GreaterThan)
    } else if c == '<' {
        two_char_op(src, st1, '=', TokenKindG::LessEqual, TokenKindG::LessThan)
    } else if c == '*' {
        two_char_op(src, st1, '*', TokenKindG::Power, TokenKindG::Multiply)
    } else if single_char_kind(c) is Some {
        Step::Next(push_tok(st1, tok_behind(single_char_kind(c)->0, st1)))
    } else if c == '"' {
        lex_string(src, st1)
    } else if is_ident_start(c) {
        lex_word(src, st1)
    } else if is_ascii_digit(c) {
        lex_number(src, st1)
    } else {
        Step::Fail(st1, lex_err(msg_unexpected(c), st1.line, st1.col - 1))
    }
}

/// Pops indentation levels above `spaces`, one `Dedent` each; the flag says
/// whether a level equal to `spaces` was found.
pub open spec fn dedent(st: LexSt, spaces: int) -> (LexSt, bool)
    decreases st.stack.len(),
{
    if st.stack.len() == 0 {
        (st, false)
    } else if st.stack.last() > spaces {
        dedent(
            LexSt {
                stack: st.stack.drop_last(),
                toks: st.toks.push(tok(TokenKindG::Dedent, st.line, st.col)),
                ..st
            },
            spaces,
        )
    } else if st.stack.last() == spaces {
        (st, true)
    } else {
        (st, false)
    }
}

/// Top of the indentation stack (0 when empty).
pub open spec fn stack_top(s: Seq<usize>) -> int {
    if s.len() > 0 { s.last() as int } else { 0 }
}

/// One step at the start of a line: leading spaces, then blank lines,
/// comments, or a change of indentation followed by the first character.
pub open spec fn line_start(src: Seq<char>, st: LexSt) -> Step {
    let e = skip_spaces(src, st.pos);
    let st2 = move_to(st, e);
    let spaces = e - st.pos;
    if e < src.len() && src[e] == '\t' {
        Step::Fail(st2, lex_err(msg_tabs(), st2.line, st2.col))
    } else if e < src.len() && src[e] == '#' {
        Step::Next(move_to(st2, skip_to_newline(src, e)))
    } else if e < src.len() && src[e] == '\r' {
        if e + 1 < src.len() && src[e + 1] == '\n' {
            Step::Next(new_line_at(st2, e + 2))
        } else {
            Step::Next(new_line_at(st2, e + 1))
        }
    } else if e < src.len() && src[e] == '\n' {
        Step::Next(new_line_at(st2, e + 1))
    } else if e >= src.len() {
        Step::Stop(st2)
    } else {
        let top = stack_top(st2.stack);
        if spaces > top {
            if st2.toks.len() == 0 && top == 0 {
                Step::Fail(st2, lex_err(msg_file_indent(), st2.line, 1))
            } else {
                dispatch(
                    src,
                    LexSt {
                        stack: st2.stack.push(spaces as usize),
                        toks: st2.toks.push(tok(TokenKindG::Indent, st2.line, st2.col)),
                        als: false,
                        ..st2
                    },
                )
            }
        } else if spaces < top {
            let (st3, found) = dedent(st2, spaces);
            if !found {
                Step::Fail(st3, lex_err(msg_inconsistent(), st3.line, st3.col))
            } else {
                dispatch(src, LexSt { als: false, ..st3 })
            }
        } else {
            dispatch(src, LexSt { als: false, ..st2 })
        }
    }
}

/// One step of the lexer from a state with input left.
pub open spec fn lex_step(src: Seq<char>, st: LexSt) -> Step {
    if st.als { line_start(src, st) } else { dispatch(src, st) }
}

/// Dedent tokens for every level above the base, then the end-of-file token.
pub open spec fn unwind(st: LexSt) -> LexSt
    decreases st.stack.len(),
{
    if st.stack.len() > 1 {
        unwind(
            LexSt {
                stack: st.stack.drop_last(),
                toks: st.toks.push(tok(TokenKindG::Dedent, st.line, st.col)),
                ..st
            },
        )
    } else {
        st
    }
}

/// End of input: a closing `Newline` unless at the start of a line, the
/// indentation unwound, and `Eof`.
pub open spec fn finish(st: LexSt) -> LexSt {
    let st1 = if !st.als { push_tok(st, tok(TokenKindG::Newline, st.line, st.col)) } else { st };
    let st2 = unwind(st1);
    push_tok(st2, tok(TokenKindG::Eof, st2.line, st2.col))
}

/// Runs the lexer to the end: the final state and the tokens or the error.
pub open spec fn lex_run(src: Seq<char>, st: LexSt) -> (LexSt, Result<Seq<TokenView>, LexErrorView>)
    decreases src.len() - st.pos,
{
    if st.pos >= src.len() {
        let f = finish(st);
        (f, Ok(f.toks))
    } else {
        match lex_step(src, st) {
            Step::Next(st2) => if st.pos < st2.pos <= src.len() {
                lex_run(src, st2)
            } else {
                (st2, Ok(st2.toks))
            },
            Step::Stop(st2) => {
                let f = finish(st2);
                (f, Ok(f.toks))
            },
            Step::Fail(st2, e) => (st2, Err(e)),
        }
    }
}

/// The lexer's starting state.
pub open spec fn initial_state() -> LexSt {
    LexSt { pos: 0, line: 1, col: 1, stack: seq![0usize], als: true, toks: seq![] }
}

/// The tokens of a source text, or its first lexical error.
pub open spec fn lex(src: Seq<char>) -> Result<Seq<TokenView>, LexErrorView> {
    lex_run(src, initial_state()).1
}

} // verus!

verus! {

/// Number of tokens of kind `k`.
pub open spec fn count_kind(toks: Seq<TokenView>, k: TokenKindView) -> nat
    decreases toks.len(),
{
    if toks.len() == 0 {
        0
    } else {
        count_kind(toks.drop_last(), k) + if toks.last().kind == k { 1nat } else { 0nat }
    }
}

} // verus!
