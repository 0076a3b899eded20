pub mod token;
pub mod error;
pub mod spec;
pub mod laws;
pub mod line_laws;

use vstd::prelude::*;
use vstd::string::*;
use crate::text::{chars_of, string_of_chars, push_char};
use self::token::{TokenKindG, TokenKind, Token, TokenView};
use self::error::{LexError, LexErrorView};
use self::spec::{
    LexSt, Step, is_ascii_digit, is_ident_start, is_ident_char, skip_spaces, skip_to_newline,
    skip_ident, skip_digits, skip_string_body, tok, move_to, dedent, lex_step, initial_state,
    word_kind, digits_value, dispatch, line_start, lex_run, finish, unwind, new_line_at,
    two_char_op, single_char_kind, lex_string, lex_word, lex_number,
};

verus! {

/// Views of a sequence of run-time tokens.
pub open spec fn tokens_view(v: Seq<Token>) -> Seq<TokenView> {
    v.map_values(|t: Token| t@)
}

proof fn lemma_tokens_view_push(v: Seq<Token>, t: Token)
    ensures
        tokens_view(v.push(t)) == tokens_view(v).push(t@),
{
    assert(tokens_view(v.push(t)) =~= tokens_view(v).push(t@));
}

/// Copies a token list; the copy has the same views.
pub fn copy_tokens(v: &Vec<Token>) -> (r: Vec<Token>)
    ensures
        tokens_view(r@) == tokens_view(v@),
{
    let mut out: Vec<Token> = Vec::new();
    let mut i: usize = 0;
    while i < v.len()
        invariant
            0 <= i <= v@.len(),
            out@.len() == i,
            forall|j: int| 0 <= j < i ==> out@[j]@ == v@[j]@,
        decreases v@.len() - i,
    {
        out.push(v[i].copy());
        i = i + 1;
    }
    assert(tokens_view(out@) =~= tokens_view(v@));
    out
}

/// The cursor part of a state.
pub open spec fn without_tokens(s: LexSt) -> LexSt {
    LexSt { toks: seq![], ..s }
}

/// Whether a run-time lexing result is the specified one.
pub open spec fn result_agrees(
    r: Result<Vec<Token>, LexError>,
    s: Result<Seq<TokenView>, LexErrorView>,
) -> bool {
    match r {
        Ok(v) => s == Ok::<Seq<TokenView>, LexErrorView>(tokens_view(v@)),
        Err(e) => s == Err::<Seq<TokenView>, LexErrorView>(e@),
    }
}

spec fn run_or_finish(src: Seq<char>, st: LexSt, stopped: bool) -> (LexSt, Result<Seq<TokenView>, LexErrorView>) {
    if stopped {
        (finish(st), Ok(finish(st).toks))
    } else {
        lex_run(src, st)
    }
}

/// The lexer: a cursor over the source characters with the indentation stack.
pub struct Lexer {
    source: Vec<char>,
    current: usize,
    line: usize,
    column: usize,
    indent_stack: Vec<usize>,
    at_line_start: bool,
}

/// Result of one executable step.
enum StepOut {
    Next,
    Stop,
    Fail(LexError),
}

proof fn lemma_skip_bounds(src: Seq<char>, p: int)
    requires
        0 <= p <= src.len(),
    ensures
        p <= skip_spaces(src, p) <= src.len(),
        p <= skip_to_newline(src, p) <= src.len(),
        p <= skip_ident(src, p) <= src.len(),
        p <= skip_digits(src, p) <= src.len(),
        p <= skip_string_body(src, p) <= src.len(),
        p < src.len() && src[p] != '\n' ==> skip_to_newline(src, p) > p,
    decreases src.len() - p,
{
    if p < src.len() {
        lemma_skip_bounds(src, p + 1);
    }
}

pub(crate) proof fn lemma_dedent_cursor(st: LexSt, spaces: int)
    ensures
        dedent(st, spaces).0.pos == st.pos,
        dedent(st, spaces).0.line == st.line,
        dedent(st, spaces).0.col == st.col,
        dedent(st, spaces).0.als == st.als,
    decreases st.stack.len(),
{
    if st.stack.len() > 0 && st.stack.last() > spaces {
        lemma_dedent_cursor(
            LexSt {
                stack: st.stack.drop_last(),
                toks: st.toks.push(tok(TokenKindG::Dedent, st.line, st.col)),
                ..st
            },
            spaces,
        );
    }
}

pub(crate) proof fn lemma_skip_spaces_bounds(src: Seq<char>, p: int)
    requires
        0 <= p <= src.len(),
    ensures
        p <= skip_spaces(src, p) <= src.len(),
{
    lemma_skip_bounds(src, p);
}

/// Every step that continues has consumed at least one character.
pub(crate) proof fn lemma_step_progress(src: Seq<char>, st: LexSt)
    requires
        0 <= st.pos < src.len(),
    ensures
        lex_step(src, st) matches Step::Next(s2) ==> st.pos < s2.pos <= src.len(),
{
    lemma_skip_bounds(src, st.pos);
    lemma_skip_bounds(src, st.pos + 1);
    let e = skip_spaces(src, st.pos);
    lemma_skip_bounds(src, e);
    if e < src.len() {
        lemma_skip_bounds(src, e + 1);
    }
    lemma_dedent_cursor(move_to(st, e), e - st.pos);
}

impl Lexer {
    /// The source characters.
    pub closed spec fn src(&self) -> Seq<char> {
        self.source@
    }

    /// The cursor state (without tokens).
    pub closed spec fn cursor(&self) -> LexSt {
        LexSt {
            pos: self.current as int,
            line: self.line as int,
            col: self.column as int,
            stack: self.indent_stack@,
            als: self.at_line_start,
            toks: seq![],
        }
    }

    /// Bounds that keep every counter in range.
    pub closed spec fn wf(&self) -> bool {
        &&& self.source@.len() < isize::MAX
        &&& self.current <= self.source@.len()
        &&& 1 <= self.line <= self.current + 1
        &&& 1 <= self.column <= self.current + 1
        &&& self.indent_stack@.len() >= 1
        &&& self.indent_stack@[0] == 0
    }

    spec fn state(&self, toks: Seq<TokenView>) -> LexSt {
        LexSt { toks, ..self.cursor() }
    }

    /// A lexer at the start of `input`.
    pub fn new(input: &str) -> (r: Lexer)
        ensures
            r.wf(),
            r.src() == input@,
            r.cursor() == initial_state(),
    {
        let mut stack: Vec<usize> = Vec::new();
        stack.push(0);
        let r = Lexer {
            source: chars_of(input),
            current: 0,
            line: 1,
            column: 1,
            indent_stack: stack,
            at_line_start: true,
        };
        assert(r.indent_stack@ =~= seq![0usize]);
        r
    }

    fn is_at_end(&self) -> (r: bool)
        ensures
            r == (self.current >= self.source@.len()),
    {
        self.current >= self.source.len()
    }

    /// Whether the character at index `p` is `c`.
    fn char_at_is(&self, p: usize, c: char) -> (r: bool)
        ensures
            r == (p < self.source@.len() && self.source@[p as int] == c),
    {
        p < self.source.len() && self.source[p] == c
    }

    fn scan_spaces(&self, p: usize) -> (r: usize)
        requires
            p <= self.source@.len(),
        ensures
            r == skip_spaces(self.source@, p as int),
    {
        let mut i = p;
        while i < self.source.len() && self.source[i] == ' '
            invariant
                p <= i <= self.source@.len(),
                skip_spaces(self.source@, i as int) == skip_spaces(self.source@, p as int),
            decreases self.source@.len() - i,
        {
            i = i + 1;
        }
        i
    }

    fn scan_to_newline(&self, p: usize) -> (r: usize)
        requires
            p <= self.source@.len(),
        ensures
            r == skip_to_newline(self.source@, p as int),
    {
        let mut i = p;
        while i < self.source.len() && self.source[i] != '\n'
            invariant
                p <= i <= self.source@.len(),
                skip_to_newline(self.source@, i as int) == skip_to_newline(self.source@, p as int),
            decreases self.source@.len() - i,
        {
            i = i + 1;
        }
        i
    }

    fn scan_ident(&self, p: usize) -> (r: usize)
        requires
            p <= self.source@.len(),
        ensures
            r == skip_ident(self.source@, p as int),
    {
        let mut i = p;
        while i < self.source.len() && is_ident_char_exec(self.source[i])
            invariant
                p <= i <= self.source@.len(),
                skip_ident(self.source@, i as int) == skip_ident(self.source@, p as int),
            decreases self.source@.len() - i,
        {
            i = i + 1;
        }
        i
    }

    fn scan_digits(&self, p: usize) -> (r: usize)
        requires
            p <= self.source@.len(),
        ensures
            r == skip_digits(self.source@, p as int),
    {
        let mut i = p;
        while i < self.source.len() && is_digit_exec(self.source[i])
            invariant
                p <= i <= self.source@.len(),
                skip_digits(self.source@, i as int) == skip_digits(self.source@, p as int),
            decreases self.source@.len() - i,
        {
            i = i + 1;
        }
        i
    }

    fn scan_string_body(&self, p: usize) -> (r: usize)
        requires
            p <= self.source@.len(),
        ensures
            r == skip_string_body(self.source@, p as int),
    {
        let mut i = p;
        while i < self.source.len() && self.source[i] != '"' && self.source[i] != '\n'
            invariant
                p <= i <= self.source@.len(),
                skip_string_body(self.source@, i as int) == skip_string_body(self.source@, p as int),
            decreases self.source@.len() - i,
        {
            i = i + 1;
        }
        i
    }

    /// Whether `source[start..end]` spells `lit`.
    fn spells(&self, start: usize, end: usize, lit: &str) -> (r: bool)
        requires
            start <= end <= self.source@.len(),
        ensures
            r == (self.source@.subrange(start as int, end as int) == lit@),
    {
        let n = lit.unicode_len();
        if end - start != n {
            return false;
        }
        let mut i: usize = 0;
        while i < n
            invariant
                start <= end <= self.source@.len(),
                end - start == n,
                n == lit@.len(),
                0 <= i <= n,
                forall|j: int| 0 <= j < i ==> self.source@[start + j] == lit@[j],
            decreases n - i,
        {
            if self.source[start + i] != lit.get_char(i) {
                assert(self.source@.subrange(start as int, end as int)[i as int] != lit@[i as int]);
                return false;
            }
            i = i + 1;
        }
        assert(self.source@.subrange(start as int, end as int) =~= lit@);
        true
    }

    /// The kind of the word `source[start..end]`.
    fn word(&self, start: usize, end: usize) -> (r: TokenKind)
        requires
            start <= end <= self.source@.len(),
        ensures
            r@ == word_kind(self.source@.subrange(start as int, end as int)),
    {
        if self.spells(start, end, "let") {
            TokenKindG::Let
        } else if self.spells(start, end, "if") {
            TokenKindG::If
        } else if self.spells(start, end, "else") {
            TokenKindG::Else
        } else if self.spells(start, end, "for") {
            TokenKindG::For
        } else if self.spells(start, end, "in") {
            TokenKindG::In
        } else if self.spells(start, end, "while") {
            TokenKindG::While
        } else if self.spells(start, end, "function") {
            TokenKindG::Func
        } else if self.spells(start, end, "return") {
            TokenKindG::Return
        } else if self.spells(start, end, "write") {
            TokenKindG::Write
        } else if self.spells(start, end, "true") {
            TokenKindG::True
        } else if self.spells(start, end, "false") {
            TokenKindG::False
        } else if self.spells(start, end, "nil") {
            TokenKindG::Nil
        } else if self.spells(start, end, "and") {
            TokenKindG::And
        } else if self.spells(start, end, "or") {
            TokenKindG::Or
        } else if self.spells(start, end, "not") {
            TokenKindG::Not
        } else {
            TokenKindG::Identifier(string_of_chars(&self.source, start, end))
        }
    }
}


/// Whether an executable step agrees with a specified one.
spec fn step_agrees(r: StepOut, s: Step, post: LexSt) -> bool {
    match s {
        Step::Next(x) => r is Next && post == x,
        Step::Stop(x) => r is Stop && post == x,
        Step::Fail(x, e) => r matches StepOut::Fail(e2) && e2@ == e && post == x,
    }
}

fn lex_error(msg: &str, line: usize, column: usize) -> (r: LexError)
    ensures
        r@.message == msg@,
        r@.line == line,
        r@.column == column,
{
    LexError { message: String::from_str(msg), line, column }
}

impl Lexer {
    spec fn st(&self, toks: Seq<Token>) -> LexSt {
        LexSt { toks: tokens_view(toks), ..self.cursor() }
    }

    /// Pushes a token of `kind` at `line`, `column`.
    fn emit(tokens: &mut Vec<Token>, kind: TokenKind, line: usize, column: usize)
        ensures
            tokens_view(final(tokens)@) == tokens_view(old(tokens)@).push(
                tok(kind@, line as int, column as int),
            ),
    {
        let t = Token { kind, line, column };
        proof {
            lemma_tokens_view_push(tokens@, t);
        }
        tokens.push(t);
    }

    /// Moves the cursor to `p` on the current line.
    fn move_to_exec(&mut self, p: usize)
        requires
            old(self).wf(),
            old(self).current <= p <= old(self).source@.len(),
        ensures
            final(self).wf(),
            final(self).source@ == old(self).source@,
            final(self).cursor() == move_to(old(self).cursor(), p as int),
    {
        self.column = self.column + (p - self.current);
        self.current = p;
    }

    /// Starts a new line at `p`.
    fn new_line_exec(&mut self, p: usize)
        requires
            old(self).wf(),
            old(self).current <= p <= old(self).source@.len(),
            old(self).line <= p,
        ensures
            final(self).wf(),
            final(self).source@ == old(self).source@,
            final(self).cursor() == new_line_at(old(self).cursor(), p as int),
    {
        self.current = p;
        self.line = self.line + 1;
        self.column = 1;
        self.at_line_start = true;
    }

    /// An operator that may be followed by `=`.
    fn two_char(&mut self, tokens: &mut Vec<Token>, second: char, eq: TokenKind, single: TokenKind) -> (r: StepOut)
        requires
            old(self).wf(),
            old(self).current >= 1,
            old(self).column >= 2,
        ensures
            final(self).wf(),
            final(self).source@ == old(self).source@,
            step_agrees(
                r,
                two_char_op(old(self).source@, old(self).st(old(tokens)@), second, eq@, single@),
                final(self).st(final(tokens)@),
            ),
    {
        let start_col = self.column - 1;
        if self.char_at_is(self.current, second) {
            let p = self.current + 1;
            self.move_to_exec(p);
            Self::emit(tokens, eq, self.line, start_col);
        } else {
            Self::emit(tokens, single, self.line, start_col);
        }
        StepOut::Next
    }

    fn string_lit(&mut self, tokens: &mut Vec<Token>) -> (r: StepOut)
        requires
            old(self).wf(),
            old(self).current >= 1,
            old(self).column >= 2,
        ensures
            final(self).wf(),
            final(self).source@ == old(self).source@,
            step_agrees(
                r,
                lex_string(old(self).source@, old(self).st(old(tokens)@)),
                final(self).st(final(tokens)@),
            ),
    {
        let start = self.current;
        let start_col = self.column - 1;
        let e = self.scan_string_body(start);
        proof {
            lemma_skip_bounds(self.source@, start as int);
        }
        if e >= self.source.len() || self.source[e] == '\n' {
            self.move_to_exec(e);
            return StepOut::Fail(lex_error("Unterminated string literal", self.line, start_col));
        }
        let value = string_of_chars(&self.source, start, e);
        self.move_to_exec(e + 1);
        Self::emit(tokens, TokenKindG::String(value), self.line, start_col);
        StepOut::Next
    }

    fn word_lit(&mut self, tokens: &mut Vec<Token>) -> (r: StepOut)
        requires
            old(self).wf(),
            old(self).current >= 1,
            old(self).column >= 2,
        ensures
            final(self).wf(),
            final(self).source@ == old(self).source@,
            step_agrees(
                r,
                lex_word(old(self).source@, old(self).st(old(tokens)@)),
                final(self).st(final(tokens)@),
            ),
    {
        let start = self.current - 1;
        let start_col = self.column - 1;
        let e = self.scan_ident(self.current);
        proof {
            lemma_skip_bounds(self.source@, self.current as int);
        }
        let kind = self.word(start, e);
        self.move_to_exec(e);
        Self::emit(tokens, kind, self.line, start_col);
        StepOut::Next
    }

    /// Value of the digits `source[start..end]`, or `None` above `i64::MAX`.
    fn digits_to_i64(&self, start: usize, end: usize) -> (r: Option<i64>)
        requires
            start <= end <= self.source@.len(),
            forall|j: int| start <= j < end ==> is_ascii_digit(self.source@[j]),
        ensures
            match r {
                Some(v) => v as int == digits_value(self.source@.subrange(start as int, end as int)),
                None => digits_value(self.source@.subrange(start as int, end as int)) > i64::MAX,
            },
    {
        let mut acc: i64 = 0;
        let mut i = start;
        while i < end
            invariant
                start <= i <= end <= self.source@.len(),
                forall|j: int| start <= j < end ==> is_ascii_digit(self.source@[j]),
                acc as int == digits_value(self.source@.subrange(start as int, i as int)),
                acc >= 0,
            decreases end - i,
        {
            let c = self.source[i];
            let d: i64 = digit_of(c);
            proof {
                let s = self.source@.subrange(start as int, i as int + 1);
                assert(s.drop_last() =~= self.source@.subrange(start as int, i as int));
                assert(s.last() == c);
            }
            if acc > (i64::MAX - d) / 10 {
                proof {
                    let s = self.source@.subrange(start as int, i as int + 1);
                    assert(digits_value(s) > i64::MAX) by (nonlinear_arith)
                        requires
                            digits_value(s) == 10 * acc + d,
                            acc > (i64::MAX - d) / 10,
                            0 <= d <= 9,
                    ;
                    lemma_digits_monotone(self.source@, start as int, i as int + 1, end as int);
                }
                return None;
            }
            proof {
                assert(10 * acc + d <= i64::MAX) by (nonlinear_arith)
                    requires
                        acc <= (i64::MAX - d) / 10,
                        0 <= d <= 9,
                        acc >= 0,
                ;
            }
            acc = acc * 10 + d;
            i = i + 1;
        }
        Some(acc)
    }

    fn number_lit(&mut self, tokens: &mut Vec<Token>) -> (r: StepOut)
        requires
            old(self).wf(),
            old(self).current >= 1,
            old(self).column >= 2,
            is_ascii_digit(old(self).source@[old(self).current - 1]),
        ensures
            final(self).wf(),
            final(self).source@ == old(self).source@,
            step_agrees(
                r,
                lex_number(old(self).source@, old(self).st(old(tokens)@)),
                final(self).st(final(tokens)@),
            ),
    {
        let start = self.current - 1;
        let start_col = self.column - 1;
        let e = self.scan_digits(self.current);
        proof {
            lemma_skip_bounds(self.source@, self.current as int);
            lemma_skip_digits_all(self.source@, self.current as int);
        }
        self.move_to_exec(e);
        if e < self.source.len() && is_ident_start_exec(self.source[e]) {
            return StepOut::Fail(lex_error("Invalid number literal", self.line, start_col));
        }
        if self.char_at_is(e, '.') {
            return StepOut::Fail(
                lex_error("Float numbers are not supported in v0.1", self.line, start_col),
            );
        }
        match self.digits_to_i64(start, e) {
            None => StepOut::Fail(
                lex_error(
                    "Integer overflow: number literal is too large to fit in i64",
                    self.line,
                    start_col,
                ),
            ),
            Some(v) => {
                Self::emit(tokens, TokenKindG::Number(v), self.line, start_col);
                StepOut::Next
            },
        }
    }
}

impl Lexer {
    /// Consumes one character inside a line and acts on it.
    fn dispatch_char(&mut self, tokens: &mut Vec<Token>) -> (r: StepOut)
        requires
            old(self).wf(),
            old(self).current < old(self).source@.len(),
        ensures
            final(self).wf(),
            final(self).source@ == old(self).source@,
            step_agrees(
                r,
                dispatch(old(self).source@, old(self).st(old(tokens)@)),
                final(self).st(final(tokens)@),
            ),
    {
        let c = self.source[self.current];
        let p = self.current + 1;
        self.move_to_exec(p);
        if c == ' ' || c == '\r' {
            StepOut::Next
        } else if c == '\t' {
            StepOut::Fail(
                lex_error(
                    "Tabs are strictly forbidden. Use spaces for indentation.",
                    self.line,
                    self.column - 1,
                ),
            )
        } else if c == '\n' {
            let col = if self.column > 1 { self.column - 1 } else { 1 };
            Self::emit(tokens, TokenKindG::Newline, self.line, col);
            let p = self.current;
            self.new_line_exec(p);
            StepOut::Next
        } else if c == '#' {
            let e = self.scan_to_newline(self.current);
            proof {
                lemma_skip_bounds(self.source@, self.current as int);
            }
            self.move_to_exec(e);
            StepOut::Next
        } else if c == '=' {
            self.two_char(tokens, '=', TokenKindG::Equal, TokenKindG::Assign)
        } else if c == '!' {
            let start_col = self.column - 1;
            if self.char_at_is(self.current, '=') {
                let p = self.current + 1;
                self.move_to_exec(p);
                Self::emit(tokens, TokenKindG::NotEqual, self.line, start_col);
                StepOut::Next
            } else {
                StepOut::Fail(lex_error("Unexpected character '!'", self.line, start_col))
            }
        } else if c == '>' {
            self.two_char(tokens, '=', TokenKindG::GreaterEqual, TokenKindG::GreaterThan)
        } else if c == '<' {
            self.two_char(tokens, '=', TokenKindG::LessEqual, TokenKindG::LessThan)
        } else if c == '*' {
            self.two_char(tokens, '*', TokenKindG::Power, TokenKindG::Multiply)
        } else if let Some(kind) = single_char_kind_exec(c) {
            let col = if self.column > 1 { self.column - 1 } else { 1 };
            Self::emit(tokens, kind, self.line, col);
            StepOut::Next
        } else if c == '"' {
            self.string_lit(tokens)
        } else if is_ident_start_exec(c) {
            self.word_lit(tokens)
        } else if is_digit_exec(c) {
            self.number_lit(tokens)
        } else {
            let mut msg = String::from_str("Unexpected character '");
            push_char(&mut msg, c);
            msg.append("'");
            assert(msg@ =~= "Unexpected character '"@ + seq![c] + "'"@);
            StepOut::Fail(LexError { message: msg, line: self.line, column: self.column - 1 })
        }
    }

    /// Pops indentation levels above `spaces`, emitting a `Dedent` for each.
    fn dedent_exec(&mut self, tokens: &mut Vec<Token>, spaces: usize) -> (found: bool)
        requires
            old(self).wf(),
        ensures
            final(self).source@ == old(self).source@,
            (final(self).st(final(tokens)@), found) == dedent(old(self).st(old(tokens)@), spaces as int),
            final(self).current == old(self).current,
            final(self).line == old(self).line,
            final(self).column == old(self).column,
            final(self).at_line_start == old(self).at_line_start,
            final(self).wf(),
    {
        let ghost st0 = self.st(tokens@);
        while self.indent_stack.len() > 0 && self.indent_stack[self.indent_stack.len() - 1] > spaces
            invariant
                self.wf(),
                self.source@ == old(self).source@,
                self.current == old(self).current,
                self.line == old(self).line,
                self.column == old(self).column,
                self.at_line_start == old(self).at_line_start,
                dedent(self.st(tokens@), spaces as int) == dedent(st0, spaces as int),
            decreases self.indent_stack@.len(),
        {
            let ghost before = self.st(tokens@);
            self.indent_stack.pop();
            Self::emit(tokens, TokenKindG::Dedent, self.line, self.column);
            assert(self.indent_stack@ =~= before.stack.drop_last());
        }
        self.indent_stack.len() > 0 && self.indent_stack[self.indent_stack.len() - 1] == spaces
    }

    /// One step at the start of a line.
    fn line_start_exec(&mut self, tokens: &mut Vec<Token>) -> (r: StepOut)
        requires
            old(self).wf(),
            old(self).current < old(self).source@.len(),
        ensures
            final(self).wf(),
            final(self).source@ == old(self).source@,
            step_agrees(
                r,
                line_start(old(self).source@, old(self).st(old(tokens)@)),
                final(self).st(final(tokens)@),
            ),
    {
        let start = self.current;
        let e = self.scan_spaces(start);
        proof {
            lemma_skip_bounds(self.source@, start as int);
        }
        self.move_to_exec(e);
        let spaces = e - start;
        if self.char_at_is(e, '\t') {
            return StepOut::Fail(
                lex_error(
                    "Tabs are strictly forbidden. Use spaces for indentation.",
                    self.line,
                    self.column,
                ),
            );
        }
        if self.char_at_is(e, '#') {
            let e2 = self.scan_to_newline(e);
            proof {
                lemma_skip_bounds(self.source@, e as int);
            }
            self.move_to_exec(e2);
            return StepOut::Next;
        }
        if self.char_at_is(e, '\r') {
            if self.char_at_is(e + 1, '\n') {
                self.new_line_exec(e + 2);
            } else {
                self.new_line_exec(e + 1);
            }
            return StepOut::Next;
        }
        if self.char_at_is(e, '\n') {
            self.new_line_exec(e + 1);
            return StepOut::Next;
        }
        if e >= self.source.len() {
            return StepOut::Stop;
        }
        let top = self.indent_stack[self.indent_stack.len() - 1];
        if spaces > top {
            if tokens.len() == 0 && top == 0 {
                return StepOut::Fail(
                    lex_error("File starting with indentation is not allowed", self.line, 1),
                );
            }
            let ghost before = self.st(tokens@);
            self.indent_stack.push(spaces);
            Self::emit(tokens, TokenKindG::Indent, self.line, self.column);
            assert(tokens_view(tokens@).len() == tokens@.len());
        } else if spaces < top {
            let found = self.dedent_exec(tokens, spaces);
            if !found {
                return StepOut::Fail(lex_error("Inconsistent indentation", self.line, self.column));
            }
        }
        self.at_line_start = false;
        self.dispatch_char(tokens)
    }

    /// One step of the lexer.
    fn step(&mut self, tokens: &mut Vec<Token>) -> (r: StepOut)
        requires
            old(self).wf(),
            old(self).current < old(self).source@.len(),
        ensures
            final(self).wf(),
            final(self).source@ == old(self).source@,
            step_agrees(
                r,
                lex_step(old(self).source@, old(self).st(old(tokens)@)),
                final(self).st(final(tokens)@),
            ),
    {
        if self.at_line_start {
            self.line_start_exec(tokens)
        } else {
            self.dispatch_char(tokens)
        }
    }

    /// End of input: closing newline, indentation unwound, end-of-file token.
    fn finish_exec(&mut self, tokens: &mut Vec<Token>)
        requires
            old(self).wf(),
        ensures
            final(self).wf(),
            final(self).source@ == old(self).source@,
            final(self).st(final(tokens)@) == finish(old(self).st(old(tokens)@)),
    {
        if !self.at_line_start {
            Self::emit(tokens, TokenKindG::Newline, self.line, self.column);
        }
        let ghost st1 = self.st(tokens@);
        while self.indent_stack.len() > 1
            invariant
                self.wf(),
                self.source@ == old(self).source@,
                unwind(self.st(tokens@)) == unwind(st1),
            decreases self.indent_stack@.len(),
        {
            let ghost before = self.st(tokens@);
            self.indent_stack.pop();
            Self::emit(tokens, TokenKindG::Dedent, self.line, self.column);
            assert(self.indent_stack@ =~= before.stack.drop_last());
        }
        Self::emit(tokens, TokenKindG::Eof, self.line, self.column);
    }

    /// Turns the rest of the source into tokens, stopping at the first
    /// lexical error. At the end of input a `Newline` closes an unfinished
    /// line, a `Dedent` is emitted for every open indentation level, and
    /// `Eof` comes last.
    pub fn tokenize(&mut self) -> (r: Result<Vec<Token>, LexError>)
        requires
            old(self).wf(),
        ensures
            final(self).wf(),
            final(self).src() == old(self).src(),
            final(self).cursor() == without_tokens(lex_run(old(self).src(), old(self).cursor()).0),
            result_agrees(r, lex_run(old(self).src(), old(self).cursor()).1),
    {
        let mut tokens: Vec<Token> = Vec::new();
        let ghost src = self.source@;
        let ghost init = self.cursor();
        assert(tokens_view(tokens@) =~= seq![]);
        assert(self.st(tokens@) =~= init);
        let mut stopped = false;
        while !stopped && self.current < self.source.len()
            invariant
                self.wf(),
                self.source@ == src,
                src == old(self).src(),
                init == old(self).cursor(),
                lex_run(src, init) == run_or_finish(src, self.st(tokens@), stopped),
            decreases (if stopped { 0int } else { 1int }) + src.len() - self.current,
        {
            let ghost before = self.st(tokens@);
            proof {
                lemma_step_progress(src, before);
            }
            match self.step(&mut tokens) {
                StepOut::Next => {},
                StepOut::Stop => {
                    stopped = true;
                },
                StepOut::Fail(e) => {
                    return Err(e);
                },
            }
        }
        self.finish_exec(&mut tokens);
        Ok(tokens)
    }
}

/// Kind of a single-character operator or delimiter.
fn single_char_kind_exec(c: char) -> (r: Option<TokenKind>)
    ensures
        match r {
            Some(k) => single_char_kind(c) == Some(k@),
            None => single_char_kind(c) is None,
        },
{
    if c == '+' {
        Some(TokenKindG::Plus)
    } else if c == '-' {
        Some(TokenKindG::Minus)
    } else if c == '/' {
        Some(TokenKindG::Divide)
    } else if c == '%' {
        Some(TokenKindG::Modulo)
    } else if c == '(' {
        Some(TokenKindG::LParen)
    } else if c == ')' {
        Some(TokenKindG::RParen)
    } else if c == '[' {
        Some(TokenKindG::LBracket)
    } else if c == ']' {
        Some(TokenKindG::RBracket)
    } else if c == '{' {
        Some(TokenKindG::LBrace)
    } else if c == '}' {
        Some(TokenKindG::RBrace)
    } else if c == ',' {
        Some(TokenKindG::Comma)
    } else if c == ':' {
        Some(TokenKindG::Colon)
    } else {
        None
    }
}

/// Value of a decimal digit.
fn digit_of(c: char) -> (r: i64)
    requires
        is_ascii_digit(c),
    ensures
        r as int == c as int - '0' as int,
        0 <= r <= 9,
{
    (c as u32 - '0' as u32) as i64
}

proof fn lemma_skip_digits_all(src: Seq<char>, p: int)
    requires
        0 <= p <= src.len(),
    ensures
        forall|j: int| p <= j < skip_digits(src, p) ==> is_ascii_digit(src[j]),
    decreases src.len() - p,
{
    if p < src.len() && is_ascii_digit(src[p]) {
        lemma_skip_digits_all(src, p + 1);
    }
}

/// A longer digit prefix never has a smaller value.
proof fn lemma_digits_monotone(src: Seq<char>, start: int, i: int, end: int)
    requires
        0 <= start <= i <= end <= src.len(),
        forall|j: int| start <= j < end ==> is_ascii_digit(src[j]),
    ensures
        digits_value(src.subrange(start, i)) <= digits_value(src.subrange(start, end)),
    decreases end - i,
{
    if i < end {
        lemma_digits_monotone(src, start, i + 1, end);
        let s = src.subrange(start, i + 1);
        assert(s.drop_last() =~= src.subrange(start, i));
    }
}

pub fn is_digit_exec(c: char) -> (r: bool)
    ensures
        r == is_ascii_digit(c),
{
    '0' <= c && c <= '9'
}

pub fn is_ident_start_exec(c: char) -> (r: bool)
    ensures
        r == is_ident_start(c),
{
    ('a' <= c && c <= 'z') || ('A' <= c && c <= 'Z') || c == '_'
}

pub fn is_ident_char_exec(c: char) -> (r: bool)
    ensures
        r == is_ident_char(c),
{
    ('a' <= c && c <= 'z') || ('A' <= c && c <= 'Z') || ('0' <= c && c <= '9') || c == '_'
}

} // verus!
