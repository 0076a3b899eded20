//! Laws of the lexer.
use vstd::prelude::*;
use super::token::{TokenKindG, TokenKindView, TokenView, TokenG};
use super::error::LexErrorView;
use super::spec::{
    LexSt, Step, count_kind, lex, lex_run, lex_step, dispatch, dedent, unwind, finish,
    initial_state, push_tok, tok, move_to, word_kind, single_char_kind, tok_behind, skip_spaces,
    lex_err, msg_file_indent, msg_tabs,
};

verus! {

/// Indentation bookkeeping: the open levels above the base are exactly the
/// `Indent` tokens not yet closed by a `Dedent`, and no `Eof` was emitted.
pub open spec fn balanced(st: LexSt) -> bool {
    &&& st.stack.len() >= 1
    &&& count_kind(st.toks, TokenKindG::Indent) == count_kind(st.toks, TokenKindG::Dedent)
        + st.stack.len() - 1
    &&& count_kind(st.toks, TokenKindG::Eof) == 0
    &&& prefixes_open(st.toks)
}

/// Every prefix of the tokens holds at least as many `Indent`s as `Dedent`s:
/// no block is closed before it is opened.
pub open spec fn prefixes_open(ts: Seq<TokenView>) -> bool {
    forall|k: int| 0 <= k <= ts.len() ==> count_kind(#[trigger] ts.take(k), TokenKindG::Dedent)
        <= count_kind(ts.take(k), TokenKindG::Indent)
}

/// Appending a token keeps every prefix open, if a `Dedent` closes an open
/// block.
proof fn lemma_prefix_push(ts: Seq<TokenView>, t: TokenView)
    requires
        prefixes_open(ts),
        count_kind(ts, TokenKindG::Dedent) <= count_kind(ts, TokenKindG::Indent),
        t.kind == TokenKindG::<Seq<char>>::Dedent ==> count_kind(ts, TokenKindG::Dedent) < count_kind(
            ts,
            TokenKindG::Indent,
        ),
    ensures
        prefixes_open(ts.push(t)),
{
    let u = ts.push(t);
    assert forall|k: int| 0 <= k <= u.len() implies count_kind(#[trigger] u.take(k), TokenKindG::Dedent)
        <= count_kind(u.take(k), TokenKindG::Indent) by {
        if k <= ts.len() {
            assert(u.take(k) =~= ts.take(k));
        } else {
            assert(u.take(k) =~= u);
            lemma_count_push(ts, t, TokenKindG::Indent);
            lemma_count_push(ts, t, TokenKindG::Dedent);
        }
    }
}

proof fn lemma_count_push(toks: Seq<TokenView>, t: TokenView, k: TokenKindView)
    ensures
        count_kind(toks.push(t), k) == count_kind(toks, k) + if t.kind == k { 1nat } else { 0nat },
{
    assert(toks.push(t).drop_last() =~= toks);
}

/// Pushing a token other than `Indent`, `Dedent` or `Eof` keeps the balance.
proof fn lemma_push_plain(st: LexSt, t: TokenView)
    requires
        balanced(st),
        t.kind != TokenKindG::<Seq<char>>::Indent,
        t.kind != TokenKindG::<Seq<char>>::Dedent,
        t.kind != TokenKindG::<Seq<char>>::Eof,
    ensures
        balanced(push_tok(st, t)),
{
    lemma_count_push(st.toks, t, TokenKindG::Indent);
    lemma_count_push(st.toks, t, TokenKindG::Dedent);
    lemma_count_push(st.toks, t, TokenKindG::Eof);
    lemma_prefix_push(st.toks, t);
}

proof fn lemma_word_plain(t: Seq<char>)
    ensures
        word_kind(t) != TokenKindG::<Seq<char>>::Indent,
        word_kind(t) != TokenKindG::<Seq<char>>::Dedent,
        word_kind(t) != TokenKindG::<Seq<char>>::Eof,
{
}

proof fn lemma_dispatch_balanced(src: Seq<char>, st: LexSt)
    requires
        balanced(st),
        0 <= st.pos < src.len(),
    ensures
        dispatch(src, st) matches Step::Next(s2) ==> balanced(s2),
{
    let c = src[st.pos];
    let st1 = move_to(st, st.pos + 1);
    assert(balanced(st1));
    if c == '\n' {
        lemma_push_plain(st1, tok_behind(TokenKindG::Newline, st1));
    } else if c == '=' || c == '>' || c == '<' || c == '!' || c == '*' {
        let s_eq = move_to(st1, st1.pos + 1);
        lemma_push_plain(s_eq, tok(TokenKindG::Equal, st1.line, st1.col - 1));
        lemma_push_plain(s_eq, tok(TokenKindG::GreaterEqual, st1.line, st1.col - 1));
        lemma_push_plain(s_eq, tok(TokenKindG::LessEqual, st1.line, st1.col - 1));
        lemma_push_plain(s_eq, tok(TokenKindG::NotEqual, st1.line, st1.col - 1));
        lemma_push_plain(s_eq, tok(TokenKindG::Power, st1.line, st1.col - 1));
        lemma_push_plain(st1, tok(TokenKindG::Assign, st1.line, st1.col - 1));
        lemma_push_plain(st1, tok(TokenKindG::GreaterThan, st1.line, st1.col - 1));
        lemma_push_plain(st1, tok(TokenKindG::LessThan, st1.line, st1.col - 1));
        lemma_push_plain(st1, tok(TokenKindG::Multiply, st1.line, st1.col - 1));
    } else if single_char_kind(c) is Some {
        lemma_push_plain(st1, tok_behind(single_char_kind(c)->0, st1));
    } else if c == '"' {
        let e = super::spec::skip_string_body(src, st1.pos);
        lemma_push_plain(
            move_to(st1, e + 1),
            tok(TokenKindG::String(src.subrange(st1.pos, e)), st1.line, st1.col - 1),
        );
    } else if super::spec::is_ident_start(c) {
        let e = super::spec::skip_ident(src, st1.pos);
        lemma_word_plain(src.subrange(st1.pos - 1, e));
        lemma_push_plain(
            move_to(st1, e),
            tok(word_kind(src.subrange(st1.pos - 1, e)), st1.line, st1.col - 1),
        );
    } else if super::spec::is_ascii_digit(c) {
        let e = super::spec::skip_digits(src, st1.pos);
        let v = super::spec::digits_value(src.subrange(st1.pos - 1, e)) as i64;
        lemma_push_plain(move_to(st1, e), tok(TokenKindG::Number(v), st1.line, st1.col - 1));
    }
}

proof fn lemma_dedent_balanced(st: LexSt, spaces: int)
    requires
        balanced(st),
        spaces >= 0,
        st.stack[0] == 0,
    ensures
        balanced(dedent(st, spaces).0),
        dedent(st, spaces).0.stack[0] == 0,
    decreases st.stack.len(),
{
    if st.stack.len() > 0 && st.stack.last() > spaces {
        let t = tok(TokenKindG::Dedent, st.line, st.col);
        let st2 = LexSt { stack: st.stack.drop_last(), toks: st.toks.push(t), ..st };
        lemma_count_push(st.toks, t, TokenKindG::Indent);
        lemma_count_push(st.toks, t, TokenKindG::Dedent);
        lemma_count_push(st.toks, t, TokenKindG::Eof);
        assert(st.stack.len() > 1);
        lemma_prefix_push(st.toks, t);
        lemma_dedent_balanced(st2, spaces);
    }
}

proof fn lemma_step_balanced(src: Seq<char>, st: LexSt)
    requires
        balanced(st),
        st.stack[0] == 0,
        0 <= st.pos < src.len(),
    ensures
        lex_step(src, st) matches Step::Next(s2) ==> balanced(s2) && s2.stack[0] == 0,
        lex_step(src, st) matches Step::Stop(s2) ==> balanced(s2) && s2.stack[0] == 0,
{
    if st.als {
        let e = super::spec::skip_spaces(src, st.pos);
        super::lemma_skip_spaces_bounds(src, st.pos);
        let st2 = move_to(st, e);
        let spaces = e - st.pos;
        let top = super::spec::stack_top(st2.stack);
        if e < src.len() {
            if spaces > top {
                let t = tok(TokenKindG::Indent, st2.line, st2.col);
                let st3 = LexSt {
                    stack: st2.stack.push(spaces as usize),
                    toks: st2.toks.push(t),
                    als: false,
                    ..st2
                };
                lemma_count_push(st2.toks, t, TokenKindG::Indent);
                lemma_count_push(st2.toks, t, TokenKindG::Dedent);
                lemma_count_push(st2.toks, t, TokenKindG::Eof);
                lemma_prefix_push(st2.toks, t);
                assert(balanced(st3));
                lemma_dispatch_balanced(src, st3);
                lemma_dispatch_stack(src, st3);
            } else if spaces < top {
                lemma_dedent_balanced(st2, spaces);
                let st3 = LexSt { als: false, ..dedent(st2, spaces).0 };
                super::lemma_dedent_cursor(st2, spaces);
                lemma_dispatch_balanced(src, st3);
                lemma_dispatch_stack(src, st3);
            } else {
                lemma_dispatch_balanced(src, LexSt { als: false, ..st2 });
                lemma_dispatch_stack(src, LexSt { als: false, ..st2 });
            }
        }
    } else {
        lemma_dispatch_balanced(src, st);
        lemma_dispatch_stack(src, st);
    }
}

/// Consuming a character never touches the indentation stack.
proof fn lemma_dispatch_stack(src: Seq<char>, st: LexSt)
    requires
        0 <= st.pos < src.len(),
    ensures
        dispatch(src, st) matches Step::Next(s2) ==> s2.stack == st.stack,
{
}

proof fn lemma_unwind_balanced(st: LexSt)
    requires
        balanced(st),
    ensures
        unwind(st).stack.len() == 1,
        count_kind(unwind(st).toks, TokenKindG::Indent) == count_kind(
            unwind(st).toks,
            TokenKindG::Dedent,
        ),
        count_kind(unwind(st).toks, TokenKindG::Eof) == 0,
        prefixes_open(unwind(st).toks),
    decreases st.stack.len(),
{
    if st.stack.len() > 1 {
        let t = tok(TokenKindG::Dedent, st.line, st.col);
        lemma_count_push(st.toks, t, TokenKindG::Indent);
        lemma_count_push(st.toks, t, TokenKindG::Dedent);
        lemma_count_push(st.toks, t, TokenKindG::Eof);
        lemma_prefix_push(st.toks, t);
        lemma_unwind_balanced(LexSt { stack: st.stack.drop_last(), toks: st.toks.push(t), ..st });
    }
}

proof fn lemma_finish_balanced(st: LexSt)
    requires
        balanced(st),
    ensures
        finish(st).toks.len() >= 1,
        finish(st).toks.last().kind == TokenKindG::<Seq<char>>::Eof,
        count_kind(finish(st).toks, TokenKindG::Indent) == count_kind(
            finish(st).toks,
            TokenKindG::Dedent,
        ),
        count_kind(finish(st).toks, TokenKindG::Eof) == 1,
        prefixes_open(finish(st).toks),
{
    let st1 = if !st.als { push_tok(st, tok(TokenKindG::Newline, st.line, st.col)) } else { st };
    if !st.als {
        lemma_push_plain(st, tok(TokenKindG::Newline, st.line, st.col));
    }
    lemma_unwind_balanced(st1);
    let st2 = unwind(st1);
    let t = tok(TokenKindG::Eof, st2.line, st2.col);
    lemma_count_push(st2.toks, t, TokenKindG::Indent);
    lemma_count_push(st2.toks, t, TokenKindG::Dedent);
    lemma_count_push(st2.toks, t, TokenKindG::Eof);
    lemma_prefix_push(st2.toks, t);
}

proof fn lemma_run_balanced(src: Seq<char>, st: LexSt)
    requires
        balanced(st),
        st.stack[0] == 0,
        st.pos >= 0,
    ensures
        lex_run(src, st).1 matches Ok(toks) ==> toks.len() >= 1 && toks.last().kind
            == TokenKindG::<Seq<char>>::Eof && count_kind(toks, TokenKindG::Indent)
            == count_kind(toks, TokenKindG::Dedent) && count_kind(toks, TokenKindG::Eof) == 1
            && prefixes_open(toks),
    decreases src.len() - st.pos,
{
    if st.pos >= src.len() {
        lemma_finish_balanced(st);
    } else {
        lemma_step_balanced(src, st);
        match lex_step(src, st) {
            Step::Next(st2) => {
                if st.pos < st2.pos <= src.len() {
                    lemma_run_balanced(src, st2);
                } else {
                    super::lemma_step_progress(src, st);
                }
            },
            Step::Stop(st2) => {
                lemma_finish_balanced(st2);
            },
            Step::Fail(_, _) => {},
        }
    }
}

/// A successful lexing ends with exactly one `Eof`, as its last token, and
/// closes every `Indent` with a `Dedent`, never before it was opened: every
/// prefix of the tokens holds at least as many `Indent`s as `Dedent`s.
pub proof fn law_lex_balanced(src: Seq<char>)
    ensures
        lex(src) matches Ok(toks) ==> toks.len() >= 1 && toks.last().kind
            == TokenKindG::<Seq<char>>::Eof && count_kind(toks, TokenKindG::Indent)
            == count_kind(toks, TokenKindG::Dedent) && count_kind(toks, TokenKindG::Eof) == 1,
        lex(src) matches Ok(toks) ==> forall|k: int| 0 <= k <= toks.len() ==> count_kind(
            #[trigger] toks.take(k),
            TokenKindG::Dedent,
        ) <= count_kind(toks.take(k), TokenKindG::Indent),
{
    let st = initial_state();
    assert(st.toks.len() == 0);
    assert forall|k: int| 0 <= k <= st.toks.len() implies count_kind(#[trigger] st.toks.take(k), TokenKindG::Dedent)
        <= count_kind(st.toks.take(k), TokenKindG::Indent) by {
        assert(st.toks.take(k).len() == 0);
    }
    lemma_run_balanced(src, st);
}

proof fn lemma_skip_spaces_run(src: Seq<char>, p: int, k: int)
    requires
        0 <= p <= k <= src.len(),
        forall|i: int| p <= i < k ==> src[i] == ' ',
        k == src.len() || src[k] != ' ',
    ensures
        skip_spaces(src, p) == k,
    decreases k - p,
{
    if p < k {
        lemma_skip_spaces_run(src, p + 1, k);
    }
}

/// Leading white space on the first line of a file is refused: spaces
/// before the first character are an error, and a tab among them is an
/// error of its own.
pub proof fn law_first_line_indentation(src: Seq<char>, k: int)
    requires
        0 < k < src.len(),
        forall|i: int| 0 <= i < k ==> src[i] == ' ',
        src[k] != ' ' && src[k] != '#' && src[k] != '\r' && src[k] != '\n',
    ensures
        src[k] == '\t' ==> lex(src) == Err::<Seq<TokenView>, _>(lex_err(msg_tabs(), 1, k + 1)),
        src[k] != '\t' ==> lex(src) == Err::<Seq<TokenView>, _>(lex_err(msg_file_indent(), 1, 1)),
{
    lemma_skip_spaces_run(src, 0, k);
}

/// A character that may appear in a name: an ASCII letter, an ASCII digit
/// or an underscore.
pub open spec fn name_char(c: char) -> bool {
    ('a' <= c && c <= 'z') || ('A' <= c && c <= 'Z') || ('0' <= c && c <= '9') || c == '_'
}

/// The reserved words of the language.
pub open spec fn reserved(w: Seq<char>) -> bool {
    ||| w == "let"@
    ||| w == "if"@
    ||| w == "else"@
    ||| w == "for"@
    ||| w == "in"@
    ||| w == "while"@
    ||| w == "function"@
    ||| w == "return"@
    ||| w == "write"@
    ||| w == "true"@
    ||| w == "false"@
    ||| w == "nil"@
    ||| w == "and"@
    ||| w == "or"@
    ||| w == "not"@
}

proof fn lemma_skip_name(w: Seq<char>, p: int)
    requires
        0 <= p <= w.len(),
        forall|i: int| 0 <= i < w.len() ==> name_char(#[trigger] w[i]),
    ensures
        super::spec::skip_ident(w, p) == w.len(),
    decreases w.len() - p,
{
    if p < w.len() {
        assert(name_char(w[p]));
        lemma_skip_name(w, p + 1);
    }
}

/// A source that is one name (letters, digits and underscores, starting
/// with a letter or an underscore, and no reserved word) lexes as that one
/// identifier at line 1, column 1, followed by the closing `Newline` and
/// `Eof`; in particular a name may start with an underscore.
pub proof fn law_name_is_identifier(w: Seq<char>)
    requires
        w.len() >= 1,
        ('a' <= w[0] && w[0] <= 'z') || ('A' <= w[0] && w[0] <= 'Z') || w[0] == '_',
        forall|i: int| 0 <= i < w.len() ==> name_char(#[trigger] w[i]),
        !reserved(w),
    ensures
        lex(w) == Ok::<Seq<TokenView>, LexErrorView>(
            seq![
                TokenG { kind: TokenKindG::Identifier(w), line: 1, column: 1 },
                TokenG { kind: TokenKindG::Newline, line: 1, column: (w.len() + 1) as usize },
                TokenG { kind: TokenKindG::Eof, line: 1, column: (w.len() + 1) as usize },
            ],
        ),
{
    let st = initial_state();
    lemma_skip_name(w, 1);
    assert(skip_spaces(w, 0) == 0);
    let s0 = LexSt { als: false, ..move_to(st, 0) };
    let st1 = move_to(s0, 1);
    assert(w.subrange(0, w.len() as int) =~= w);
    assert(word_kind(w) == TokenKindG::Identifier(w));
    let s3 = push_tok(move_to(st1, w.len() as int), tok(TokenKindG::Identifier(w), 1, 1));
    assert(super::spec::lex_word(w, st1) == Step::Next(s3));
    assert(dispatch(w, s0) == Step::Next(s3));
    assert(lex_step(w, st) == Step::Next(s3));
    assert(s3.pos == w.len());
    assert(lex_run(w, s3) == (finish(s3), Ok::<Seq<TokenView>, LexErrorView>(finish(s3).toks)));
    assert(lex_run(w, st) == lex_run(w, s3));
    assert(finish(s3).toks =~= seq![
        tok(TokenKindG::Identifier(w), 1, 1),
        TokenG { kind: TokenKindG::Newline, line: 1, column: (w.len() + 1) as usize },
        TokenG { kind: TokenKindG::Eof, line: 1, column: (w.len() + 1) as usize },
    ]);
}

} // verus!
