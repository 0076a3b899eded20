//! Laws on whole lines: lines that hold only spaces, or spaces and a
//! comment, are ignored (putting one at a line boundary changes no token and
//! no error but for line numbers), and a tab among the leading spaces of a
//! line is refused.
use vstd::prelude::*;
use super::token::{TokenKindG, TokenKindView, TokenView};
use super::error::LexErrorView;
use super::spec::{
    LexSt, Step, lex, lex_run, lex_step, line_start, dispatch, dedent, unwind, finish,
    initial_state, push_tok, tok, tok_behind, move_to, two_char_op, lex_string, lex_word,
    lex_number, single_char_kind, skip_spaces, skip_to_newline, skip_ident, skip_digits,
    skip_string_body, stack_top, is_ident_start, is_ascii_digit, msg_tabs, msg_file_indent,
};

verus! {

/// A line of spaces, then either nothing, a comment, or a carriage return,
/// ended by its line feed.
pub open spec fn ignorable_line(w: Seq<char>) -> bool {
    let e = skip_spaces(w, 0);
    &&& w.len() >= 1
    &&& w.last() == '\n'
    &&& forall|i: int| 0 <= i < w.len() - 1 ==> w[i] != '\n'
    &&& (e == w.len() - 1 || w[e] == '#' || (e == w.len() - 2 && w[e] == '\r'))
}

/// The kind and column of each token.
pub open spec fn kinds_cols(ts: Seq<TokenView>) -> Seq<(TokenKindView, usize)> {
    ts.map_values(|t: TokenView| (t.kind, t.column))
}

/// Two lexer outcomes that differ at most in line numbers.
pub open spec fn same_but_lines(
    r1: Result<Seq<TokenView>, LexErrorView>,
    r2: Result<Seq<TokenView>, LexErrorView>,
) -> bool {
    match (r1, r2) {
        (Ok(t1), Ok(t2)) => kinds_cols(t1) == kinds_cols(t2),
        (Err(e1), Err(e2)) => e1.message == e2.message && e1.column == e2.column,
        _ => false,
    }
}

/// Law: a line that holds only spaces (and perhaps a comment), put at a line
/// boundary of a source, does not change what the lexer makes of it: the same
/// tokens, `Indent` and `Dedent` included, at the same columns, or the same
/// error at the same column; only line numbers move.
pub proof fn law_ignorable_line(pre: Seq<char>, w: Seq<char>, post: Seq<char>)
    requires
        pre.len() == 0 || pre.last() == '\n',
        ignorable_line(w),
    ensures
        same_but_lines(lex(pre + post), lex(pre + w + post)),
{
    let st = initial_state();
    assert(shifted(st, st, 0));
    if pre.len() == 0 {
        lemma_junction(pre, w, post, st, st);
    } else {
        lemma_run_prefix(pre, w, post, st, st);
    }
}

/// Lines laid end to end.
pub open spec fn join_lines(lines: Seq<Seq<char>>) -> Seq<char>
    decreases lines.len(),
{
    if lines.len() == 0 {
        seq![]
    } else {
        join_lines(lines.drop_last()) + lines.last()
    }
}

/// Law: any number of ignorable lines before a source leave its tokens, and
/// its error, as they were but for line numbers.
pub proof fn law_ignorable_prefix(lines: Seq<Seq<char>>, src: Seq<char>)
    requires
        forall|i: int| 0 <= i < lines.len() ==> ignorable_line(#[trigger] lines[i]),
    ensures
        same_but_lines(lex(src), lex(join_lines(lines) + src)),
    decreases lines.len(),
{
    if lines.len() == 0 {
        assert(join_lines(lines) + src =~= src);
        lemma_same_refl(lex(src));
    } else {
        let rest = lines.drop_last();
        let last = lines.last();
        assert(ignorable_line(lines[lines.len() - 1]));
        law_ignorable_prefix(rest, src);
        lemma_join_ends_line(rest);
        law_ignorable_line(join_lines(rest), last, src);
        assert(join_lines(lines) + src =~= join_lines(rest) + last + src);
        lemma_same_trans(lex(src), lex(join_lines(rest) + src), lex(join_lines(lines) + src));
    }
}

/// Law: leading spaces on the first line that holds more than spaces and a
/// comment are refused, whatever ignorable lines come before it; a tab among
/// them is refused as such.
pub proof fn law_first_substantial_line(lines: Seq<Seq<char>>, src: Seq<char>, k: int)
    requires
        forall|i: int| 0 <= i < lines.len() ==> ignorable_line(#[trigger] lines[i]),
        0 < k < src.len(),
        forall|i: int| 0 <= i < k ==> src[i] == ' ',
        src[k] != ' ' && src[k] != '#' && src[k] != '\r' && src[k] != '\n',
    ensures
        lex(join_lines(lines) + src) is Err,
        src[k] == '\t' ==> lex(join_lines(lines) + src)->Err_0.message == msg_tabs()
            && lex(join_lines(lines) + src)->Err_0.column == (k + 1) as usize,
        src[k] != '\t' ==> lex(join_lines(lines) + src)->Err_0.message == msg_file_indent()
            && lex(join_lines(lines) + src)->Err_0.column == 1,
{
    super::laws::law_first_line_indentation(src, k);
    law_ignorable_prefix(lines, src);
}

proof fn lemma_same_refl(r: Result<Seq<TokenView>, LexErrorView>)
    ensures
        same_but_lines(r, r),
{
}

proof fn lemma_same_trans(
    r1: Result<Seq<TokenView>, LexErrorView>,
    r2: Result<Seq<TokenView>, LexErrorView>,
    r3: Result<Seq<TokenView>, LexErrorView>,
)
    requires
        same_but_lines(r1, r2),
        same_but_lines(r2, r3),
    ensures
        same_but_lines(r1, r3),
{
}

/// Ignorable lines laid end to end finish a line (or are empty).
proof fn lemma_join_ends_line(lines: Seq<Seq<char>>)
    requires
        forall|i: int| 0 <= i < lines.len() ==> ignorable_line(#[trigger] lines[i]),
    ensures
        join_lines(lines).len() == 0 || join_lines(lines).last() == '\n',
{
    if lines.len() > 0 {
        assert(ignorable_line(lines[lines.len() - 1]));
        let j = join_lines(lines);
        assert(j == join_lines(lines.drop_last()) + lines.last());
        assert(j[j.len() - 1] == lines.last()[lines.last().len() - 1]);
    }
}

/// `n` spaces.
pub open spec fn spaces(n: nat) -> Seq<char> {
    Seq::new(n, |i: int| ' ')
}

/// Law: a tab among the leading spaces of a line is refused; whatever comes
/// before that line, the source does not lex.
pub proof fn law_tab_in_indentation(pre: Seq<char>, n: nat, rest: Seq<char>)
    requires
        pre.len() == 0 || pre.last() == '\n',
    ensures
        lex(pre + spaces(n) + seq!['\t'] + rest) is Err,
{
    let s = pre + spaces(n) + seq!['\t'] + rest;
    let j = pre.len() as int;
    assert forall|i: int| j <= i < j + n implies #[trigger] s[i] == ' ' by {
        assert((pre + spaces(n))[i] == spaces(n)[i - j]);
        assert((pre + spaces(n) + seq!['\t'])[i] == (pre + spaces(n))[i]);
    }
    assert(s[j + n] == (pre + spaces(n) + seq!['\t'])[j + n]);
    if j > 0 {
        assert(s[j - 1] == pre[j - 1]);
    }
    lemma_reach_tab(s, j, n as int, initial_state());
}

proof fn lemma_spaces_to(s: Seq<char>, p: int, k: int)
    requires
        0 <= p <= k < s.len(),
        forall|i: int| p <= i < k ==> #[trigger] s[i] == ' ',
        s[k] != ' ',
    ensures
        skip_spaces(s, p) == k,
    decreases k - p,
{
    if p < k {
        assert(s[p] == ' ');
        lemma_spaces_to(s, p + 1, k);
    }
}

/// The run reaches the start of the line at `j`, unless it fails first, and
/// fails there on the tab.
proof fn lemma_reach_tab(s: Seq<char>, j: int, n: int, st: LexSt)
    requires
        0 <= j,
        0 <= n,
        j + n < s.len(),
        j == 0 || s[j - 1] == '\n',
        forall|i: int| j <= i < j + n ==> #[trigger] s[i] == ' ',
        s[j + n] == '\t',
        0 <= st.pos <= j,
        st.pos == j ==> st.als,
    ensures
        lex_run(s, st).1 is Err,
    decreases j - st.pos,
{
    if st.pos == j {
        lemma_spaces_to(s, j, j + n);
    } else {
        assert forall|i: int| 0 <= i < j implies #[trigger] s[i] == s[i + 0] by {}
        assert(agree(s, s, 0, 0, j));
        assert(!tail_mode(s, s, 0, j));
        assert(shifted(st, st, 0));
        lemma_step(s, s, 0, 0, j, st, st);
        match lex_step(s, st) {
            Step::Next(x) => {
                lemma_reach_tab(s, j, n, x);
            },
            _ => {},
        }
    }
}

/// `s1` from `lo` to `hi` is `s2` from `lo + o` on; either both run to their
/// ends there, or `s1` has a line feed just before `hi`.
spec fn agree(s1: Seq<char>, s2: Seq<char>, o: int, lo: int, hi: int) -> bool {
    &&& 0 <= lo <= hi <= s1.len()
    &&& 0 <= o
    &&& hi + o <= s2.len()
    &&& forall|i: int| lo <= i < hi ==> #[trigger] s1[i] == s2[i + o]
    &&& tail_mode(s1, s2, o, hi) || (lo < hi && s1[hi - 1] == '\n')
}

spec fn tail_mode(s1: Seq<char>, s2: Seq<char>, o: int, hi: int) -> bool {
    hi == s1.len() && s2.len() == s1.len() + o
}

/// Two lexer states that agree but for the position (moved by `o`) and the line.
spec fn shifted(a: LexSt, b: LexSt, o: int) -> bool {
    &&& b.pos == a.pos + o
    &&& b.col == a.col
    &&& b.stack == a.stack
    &&& b.als == a.als
    &&& kinds_cols(b.toks) == kinds_cols(a.toks)
}

spec fn steps_rel(x: Step, y: Step, o: int) -> bool {
    match (x, y) {
        (Step::Next(a), Step::Next(b)) => shifted(a, b, o),
        (Step::Stop(a), Step::Stop(b)) => shifted(a, b, o),
        (Step::Fail(_, e1), Step::Fail(_, e2)) => e1.message == e2.message && e1.column
            == e2.column,
        _ => false,
    }
}

/// A step that stays at or before `hi`, and reaches it only at the start of a line.
spec fn lands(x: Step, hi: int) -> bool {
    &&& x matches Step::Next(s) ==> s.pos <= hi && (s.pos == hi ==> s.als && s.col == 1)
    &&& !(x is Stop)
}

/// A step that moves past `p`.
spec fn advances(x: Step, p: int) -> bool {
    x matches Step::Next(s) ==> s.pos > p
}

/// The state after a whole line of `n` characters at the start of a line.
spec fn after_line(b: LexSt, n: int) -> LexSt {
    LexSt { pos: b.pos + n, line: b.line + 1, col: 1, als: true, ..b }
}

proof fn lemma_kc_push(ts: Seq<TokenView>, t: TokenView)
    ensures
        kinds_cols(ts.push(t)) == kinds_cols(ts).push((t.kind, t.column)),
{
    assert(kinds_cols(ts.push(t)) =~= kinds_cols(ts).push((t.kind, t.column)));
}

proof fn lemma_push_rel(a: LexSt, b: LexSt, t1: TokenView, t2: TokenView, o: int)
    requires
        shifted(a, b, o),
        t1.kind == t2.kind,
        t1.column == t2.column,
    ensures
        shifted(push_tok(a, t1), push_tok(b, t2), o),
{
    lemma_kc_push(a.toks, t1);
    lemma_kc_push(b.toks, t2);
}

proof fn lemma_spaces(s1: Seq<char>, s2: Seq<char>, o: int, lo: int, hi: int, p: int)
    requires
        agree(s1, s2, o, lo, hi),
        lo <= p <= hi,
        p == hi ==> tail_mode(s1, s2, o, hi),
    ensures
        skip_spaces(s2, p + o) == skip_spaces(s1, p) + o,
        p <= skip_spaces(s1, p),
        skip_spaces(s1, p) <= hi,
        p < hi && s1[hi - 1] == '\n' ==> skip_spaces(s1, p) < hi,
    decreases hi - p,
{
    if p < hi {
        assert(s1[p] == s2[p + o]);
        if s1[p] == ' ' {
            lemma_spaces(s1, s2, o, lo, hi, p + 1);
        }
    }
}

proof fn lemma_to_newline(s1: Seq<char>, s2: Seq<char>, o: int, lo: int, hi: int, p: int)
    requires
        agree(s1, s2, o, lo, hi),
        lo <= p <= hi,
        p == hi ==> tail_mode(s1, s2, o, hi),
    ensures
        skip_to_newline(s2, p + o) == skip_to_newline(s1, p) + o,
        p <= skip_to_newline(s1, p),
        skip_to_newline(s1, p) <= hi,
        p < hi && s1[hi - 1] == '\n' ==> skip_to_newline(s1, p) < hi,
        p < s1.len() && s1[p] != '\n' ==> p < skip_to_newline(s1, p),
    decreases hi - p,
{
    if p < hi {
        assert(s1[p] == s2[p + o]);
        if s1[p] != '\n' {
            lemma_to_newline(s1, s2, o, lo, hi, p + 1);
        }
    }
}

proof fn lemma_ident(s1: Seq<char>, s2: Seq<char>, o: int, lo: int, hi: int, p: int)
    requires
        agree(s1, s2, o, lo, hi),
        lo <= p <= hi,
        p == hi ==> tail_mode(s1, s2, o, hi),
    ensures
        skip_ident(s2, p + o) == skip_ident(s1, p) + o,
        p <= skip_ident(s1, p),
        skip_ident(s1, p) <= hi,
        p < hi && s1[hi - 1] == '\n' ==> skip_ident(s1, p) < hi,
    decreases hi - p,
{
    if p < hi {
        assert(s1[p] == s2[p + o]);
        if super::spec::is_ident_char(s1[p]) {
            lemma_ident(s1, s2, o, lo, hi, p + 1);
        }
    }
}

proof fn lemma_digits(s1: Seq<char>, s2: Seq<char>, o: int, lo: int, hi: int, p: int)
    requires
        agree(s1, s2, o, lo, hi),
        lo <= p <= hi,
        p == hi ==> tail_mode(s1, s2, o, hi),
    ensures
        skip_digits(s2, p + o) == skip_digits(s1, p) + o,
        p <= skip_digits(s1, p),
        skip_digits(s1, p) <= hi,
        p < hi && s1[hi - 1] == '\n' ==> skip_digits(s1, p) < hi,
    decreases hi - p,
{
    if p < hi {
        assert(s1[p] == s2[p + o]);
        if is_ascii_digit(s1[p]) {
            lemma_digits(s1, s2, o, lo, hi, p + 1);
        }
    }
}

proof fn lemma_string_body(s1: Seq<char>, s2: Seq<char>, o: int, lo: int, hi: int, p: int)
    requires
        agree(s1, s2, o, lo, hi),
        lo <= p <= hi,
        p == hi ==> tail_mode(s1, s2, o, hi),
    ensures
        skip_string_body(s2, p + o) == skip_string_body(s1, p) + o,
        p <= skip_string_body(s1, p),
        skip_string_body(s1, p) <= hi,
        p < hi && s1[hi - 1] == '\n' ==> skip_string_body(s1, p) < hi,
    decreases hi - p,
{
    if p < hi {
        assert(s1[p] == s2[p + o]);
        if s1[p] != '"' && s1[p] != '\n' {
            lemma_string_body(s1, s2, o, lo, hi, p + 1);
        }
    }
}

/// The agreeing stretch of the two sources holds the same characters.
proof fn lemma_sub(s1: Seq<char>, s2: Seq<char>, o: int, lo: int, hi: int, x: int, y: int)
    requires
        agree(s1, s2, o, lo, hi),
        lo <= x <= y <= hi,
    ensures
        s2.subrange(x + o, y + o) == s1.subrange(x, y),
{
    assert forall|i: int| 0 <= i < y - x implies #[trigger] s2.subrange(x + o, y + o)[i]
        == s1.subrange(x, y)[i] by {
        assert(s1[x + i] == s2[x + i + o]);
    }
    assert(s2.subrange(x + o, y + o) =~= s1.subrange(x, y));
}

proof fn lemma_two_char(
    s1: Seq<char>,
    s2: Seq<char>,
    o: int,
    lo: int,
    hi: int,
    st1: LexSt,
    su1: LexSt,
    second: char,
    eq: TokenKindView,
    single: TokenKindView,
)
    requires
        second != '\n',
        agree(s1, s2, o, lo, hi),
        shifted(st1, su1, o),
        lo < st1.pos <= hi,
        st1.pos == hi ==> tail_mode(s1, s2, o, hi),
    ensures
        steps_rel(two_char_op(s1, st1, second, eq, single), two_char_op(s2, su1, second, eq, single), o),
        tail_mode(s1, s2, o, hi) || lands(two_char_op(s1, st1, second, eq, single), hi),
        advances(two_char_op(s1, st1, second, eq, single), st1.pos - 1),
{
    if st1.pos < hi {
        assert(s1[st1.pos] == s2[su1.pos]);
    }
    let sm = move_to(st1, st1.pos + 1);
    let tm = move_to(su1, su1.pos + 1);
    lemma_push_rel(sm, tm, tok(eq, st1.line, st1.col - 1), tok(eq, su1.line, su1.col - 1), o);
    lemma_push_rel(
        st1,
        su1,
        tok(single, st1.line, st1.col - 1),
        tok(single, su1.line, su1.col - 1),
        o,
    );
}

proof fn lemma_string_rel(s1: Seq<char>, s2: Seq<char>, o: int, lo: int, hi: int, st1: LexSt, su1: LexSt)
    requires
        agree(s1, s2, o, lo, hi),
        shifted(st1, su1, o),
        lo < st1.pos <= hi,
        st1.pos == hi ==> tail_mode(s1, s2, o, hi),
    ensures
        steps_rel(lex_string(s1, st1), lex_string(s2, su1), o),
        tail_mode(s1, s2, o, hi) || lands(lex_string(s1, st1), hi),
        advances(lex_string(s1, st1), st1.pos - 1),
{
    lemma_string_body(s1, s2, o, lo, hi, st1.pos);
    let e = skip_string_body(s1, st1.pos);
    if e < hi {
        assert(s1[e] == s2[e + o]);
    }
    if !(e >= s1.len() || s1[e] == '\n') {
        lemma_sub(s1, s2, o, lo, hi, st1.pos, e);
        let sub = s1.subrange(st1.pos, e);
        lemma_push_rel(
            move_to(st1, e + 1),
            move_to(su1, e + o + 1),
            tok(TokenKindG::String(sub), st1.line, st1.col - 1),
            tok(TokenKindG::String(sub), su1.line, su1.col - 1),
            o,
        );
    }
}

proof fn lemma_word_rel(s1: Seq<char>, s2: Seq<char>, o: int, lo: int, hi: int, st1: LexSt, su1: LexSt)
    requires
        agree(s1, s2, o, lo, hi),
        shifted(st1, su1, o),
        lo < st1.pos <= hi,
        st1.pos == hi ==> tail_mode(s1, s2, o, hi),
    ensures
        steps_rel(lex_word(s1, st1), lex_word(s2, su1), o),
        tail_mode(s1, s2, o, hi) || lands(lex_word(s1, st1), hi),
        advances(lex_word(s1, st1), st1.pos - 1),
{
    lemma_ident(s1, s2, o, lo, hi, st1.pos);
    let e = skip_ident(s1, st1.pos);
    lemma_sub(s1, s2, o, lo, hi, st1.pos - 1, e);
    let k = super::spec::word_kind(s1.subrange(st1.pos - 1, e));
    lemma_push_rel(
        move_to(st1, e),
        move_to(su1, e + o),
        tok(k, st1.line, st1.col - 1),
        tok(k, su1.line, su1.col - 1),
        o,
    );
}

proof fn lemma_number_rel(s1: Seq<char>, s2: Seq<char>, o: int, lo: int, hi: int, st1: LexSt, su1: LexSt)
    requires
        agree(s1, s2, o, lo, hi),
        shifted(st1, su1, o),
        lo < st1.pos <= hi,
        st1.pos == hi ==> tail_mode(s1, s2, o, hi),
    ensures
        steps_rel(lex_number(s1, st1), lex_number(s2, su1), o),
        tail_mode(s1, s2, o, hi) || lands(lex_number(s1, st1), hi),
        advances(lex_number(s1, st1), st1.pos - 1),
{
    lemma_digits(s1, s2, o, lo, hi, st1.pos);
    let e = skip_digits(s1, st1.pos);
    if e < hi {
        assert(s1[e] == s2[e + o]);
    }
    lemma_sub(s1, s2, o, lo, hi, st1.pos - 1, e);
    let v = super::spec::digits_value(s1.subrange(st1.pos - 1, e));
    lemma_push_rel(
        move_to(st1, e),
        move_to(su1, e + o),
        tok(TokenKindG::Number(v as i64), st1.line, st1.col - 1),
        tok(TokenKindG::Number(v as i64), su1.line, su1.col - 1),
        o,
    );
}

#[verifier::rlimit(40)]
proof fn lemma_dispatch(s1: Seq<char>, s2: Seq<char>, o: int, lo: int, hi: int, a: LexSt, b: LexSt)
    requires
        agree(s1, s2, o, lo, hi),
        shifted(a, b, o),
        lo <= a.pos < hi,
    ensures
        steps_rel(dispatch(s1, a), dispatch(s2, b), o),
        tail_mode(s1, s2, o, hi) || lands(dispatch(s1, a), hi),
        advances(dispatch(s1, a), a.pos),
{
    let c = s1[a.pos];
    assert(s2[b.pos] == c);
    let st1 = move_to(a, a.pos + 1);
    let su1 = move_to(b, b.pos + 1);
    assert(shifted(st1, su1, o));
    if c == ' ' || c == '\r' || c == '\t' {
    } else if c == '\n' {
        lemma_push_rel(
            st1,
            su1,
            tok_behind(TokenKindG::Newline, st1),
            tok_behind(TokenKindG::Newline, su1),
            o,
        );
    } else if c == '#' {
        lemma_to_newline(s1, s2, o, lo, hi, st1.pos);
    } else if c == '=' {
        lemma_two_char(s1, s2, o, lo, hi, st1, su1, '=', TokenKindG::Equal, TokenKindG::Assign);
    } else if c == '!' {
        if st1.pos < hi {
            assert(s1[st1.pos] == s2[su1.pos]);
        }
        lemma_push_rel(
            move_to(st1, st1.pos + 1),
            move_to(su1, su1.pos + 1),
            tok(TokenKindG::NotEqual, st1.line, st1.col - 1),
            tok(TokenKindG::NotEqual, su1.line, su1.col - 1),
            o,
        );
    } else if c == '>' {
        lemma_two_char(s1, s2, o, lo, hi, st1, su1, '=', TokenKindG::GreaterEqual, TokenKindG::GreaterThan);
    } else if c == '<' {
        lemma_two_char(s1, s2, o, lo, hi, st1, su1, '=', TokenKindG::LessEqual, TokenKindG::LessThan);
    } else if c == '*' {
        lemma_two_char(s1, s2, o, lo, hi, st1, su1, '*', TokenKindG::Power, TokenKindG::Multiply);
    } else if single_char_kind(c) is Some {
        lemma_push_rel(
            st1,
            su1,
            tok_behind(single_char_kind(c)->0, st1),
            tok_behind(single_char_kind(c)->0, su1),
            o,
        );
    } else if c == '"' {
        lemma_string_rel(s1, s2, o, lo, hi, st1, su1);
    } else if is_ident_start(c) {
        lemma_word_rel(s1, s2, o, lo, hi, st1, su1);
    } else if is_ascii_digit(c) {
        lemma_number_rel(s1, s2, o, lo, hi, st1, su1);
    }
}

proof fn lemma_dedent(a: LexSt, b: LexSt, o: int, spaces: int)
    requires
        shifted(a, b, o),
    ensures
        shifted(dedent(a, spaces).0, dedent(b, spaces).0, o),
        dedent(a, spaces).1 == dedent(b, spaces).1,
        dedent(a, spaces).0.pos == a.pos,
    decreases a.stack.len(),
{
    if a.stack.len() > 0 && a.stack.last() > spaces {
        let a2 = LexSt {
            stack: a.stack.drop_last(),
            toks: a.toks.push(tok(TokenKindG::Dedent, a.line, a.col)),
            ..a
        };
        let b2 = LexSt {
            stack: b.stack.drop_last(),
            toks: b.toks.push(tok(TokenKindG::Dedent, b.line, b.col)),
            ..b
        };
        lemma_kc_push(a.toks, tok(TokenKindG::Dedent, a.line, a.col));
        lemma_kc_push(b.toks, tok(TokenKindG::Dedent, b.line, b.col));
        lemma_dedent(a2, b2, o, spaces);
    }
}

#[verifier::rlimit(40)]
proof fn lemma_line_start(s1: Seq<char>, s2: Seq<char>, o: int, lo: int, hi: int, a: LexSt, b: LexSt)
    requires
        agree(s1, s2, o, lo, hi),
        shifted(a, b, o),
        lo <= a.pos < hi,
    ensures
        steps_rel(line_start(s1, a), line_start(s2, b), o),
        tail_mode(s1, s2, o, hi) || lands(line_start(s1, a), hi),
        advances(line_start(s1, a), a.pos),
{
    lemma_spaces(s1, s2, o, lo, hi, a.pos);
    let e = skip_spaces(s1, a.pos);
    let st2 = move_to(a, e);
    let su2 = move_to(b, e + o);
    assert(shifted(st2, su2, o));
    if e < hi {
        assert(s1[e] == s2[e + o]);
    }
    assert(kinds_cols(st2.toks).len() == st2.toks.len());
    assert(kinds_cols(su2.toks).len() == su2.toks.len());
    if e < s1.len() && s1[e] == '\t' {
    } else if e < s1.len() && s1[e] == '#' {
        lemma_to_newline(s1, s2, o, lo, hi, e);
    } else if e < s1.len() && s1[e] == '\r' {
        if e + 1 < hi {
            assert(s1[e + 1] == s2[e + 1 + o]);
        }
    } else if e < s1.len() && s1[e] == '\n' {
    } else if e >= s1.len() {
    } else {
        let spaces = e - a.pos;
        let top = stack_top(st2.stack);
        if spaces > top {
            if !(st2.toks.len() == 0 && top == 0) {
                let t1 = tok(TokenKindG::Indent, st2.line, st2.col);
                let t2 = tok(TokenKindG::Indent, su2.line, su2.col);
                lemma_kc_push(st2.toks, t1);
                lemma_kc_push(su2.toks, t2);
                let x = LexSt {
                    stack: st2.stack.push(spaces as usize),
                    toks: st2.toks.push(t1),
                    als: false,
                    ..st2
                };
                let y = LexSt {
                    stack: su2.stack.push(spaces as usize),
                    toks: su2.toks.push(t2),
                    als: false,
                    ..su2
                };
                lemma_dispatch(s1, s2, o, lo, hi, x, y);
            }
        } else if spaces < top {
            lemma_dedent(st2, su2, o, spaces);
            let st3 = dedent(st2, spaces).0;
            let su3 = dedent(su2, spaces).0;
            if dedent(st2, spaces).1 {
                lemma_dispatch(s1, s2, o, lo, hi, LexSt { als: false, ..st3 }, LexSt { als: false, ..su3 });
            }
        } else {
            lemma_dispatch(s1, s2, o, lo, hi, LexSt { als: false, ..st2 }, LexSt { als: false, ..su2 });
        }
    }
}

proof fn lemma_step(s1: Seq<char>, s2: Seq<char>, o: int, lo: int, hi: int, a: LexSt, b: LexSt)
    requires
        agree(s1, s2, o, lo, hi),
        shifted(a, b, o),
        lo <= a.pos < hi,
    ensures
        steps_rel(lex_step(s1, a), lex_step(s2, b), o),
        tail_mode(s1, s2, o, hi) || lands(lex_step(s1, a), hi),
        advances(lex_step(s1, a), a.pos),
{
    if a.als {
        lemma_line_start(s1, s2, o, lo, hi, a, b);
    } else {
        lemma_dispatch(s1, s2, o, lo, hi, a, b);
    }
}

proof fn lemma_unwind(a: LexSt, b: LexSt, o: int)
    requires
        shifted(a, b, o),
    ensures
        shifted(unwind(a), unwind(b), o),
    decreases a.stack.len(),
{
    if a.stack.len() > 1 {
        let a2 = LexSt {
            stack: a.stack.drop_last(),
            toks: a.toks.push(tok(TokenKindG::Dedent, a.line, a.col)),
            ..a
        };
        let b2 = LexSt {
            stack: b.stack.drop_last(),
            toks: b.toks.push(tok(TokenKindG::Dedent, b.line, b.col)),
            ..b
        };
        lemma_kc_push(a.toks, tok(TokenKindG::Dedent, a.line, a.col));
        lemma_kc_push(b.toks, tok(TokenKindG::Dedent, b.line, b.col));
        lemma_unwind(a2, b2, o);
    }
}

proof fn lemma_finish(a: LexSt, b: LexSt, o: int)
    requires
        shifted(a, b, o),
    ensures
        shifted(finish(a), finish(b), o),
{
    let a1 = if !a.als { push_tok(a, tok(TokenKindG::Newline, a.line, a.col)) } else { a };
    let b1 = if !b.als { push_tok(b, tok(TokenKindG::Newline, b.line, b.col)) } else { b };
    if !a.als {
        lemma_push_rel(a, b, tok(TokenKindG::Newline, a.line, a.col), tok(TokenKindG::Newline, b.line, b.col), o);
    }
    lemma_unwind(a1, b1, o);
    let a2 = unwind(a1);
    let b2 = unwind(b1);
    lemma_push_rel(a2, b2, tok(TokenKindG::Eof, a2.line, a2.col), tok(TokenKindG::Eof, b2.line, b2.col), o);
}

/// Past the inserted line the two runs go step for step.
proof fn lemma_run_tail(s1: Seq<char>, s2: Seq<char>, o: int, lo: int, a: LexSt, b: LexSt)
    requires
        agree(s1, s2, o, lo, s1.len() as int),
        tail_mode(s1, s2, o, s1.len() as int),
        shifted(a, b, o),
        lo <= a.pos <= s1.len(),
    ensures
        same_but_lines(lex_run(s1, a).1, lex_run(s2, b).1),
    decreases s1.len() - a.pos,
{
    if a.pos >= s1.len() {
        lemma_finish(a, b, o);
    } else {
        lemma_step(s1, s2, o, lo, s1.len() as int, a, b);
        match (lex_step(s1, a), lex_step(s2, b)) {
            (Step::Next(x), Step::Next(y)) => {
                if a.pos < x.pos <= s1.len() {
                    lemma_run_tail(s1, s2, o, lo, x, y);
                }
            },
            (Step::Stop(x), Step::Stop(y)) => {
                lemma_finish(x, y, o);
            },
            _ => {},
        }
    }
}

/// `skip_to_newline` stops only at a line feed or at the end.
proof fn lemma_newline_at(w: Seq<char>, p: int)
    requires
        0 <= p < w.len(),
        w.last() == '\n',
        forall|i: int| 0 <= i < w.len() - 1 ==> w[i] != '\n',
    ensures
        skip_to_newline(w, p) == w.len() - 1,
    decreases w.len() - p,
{
    if w[p] != '\n' {
        lemma_newline_at(w, p + 1);
    }
}

/// At the start of the inserted line, the lexer passes over it and comes to
/// the start of the next line with nothing else changed.
#[verifier::rlimit(40)]
proof fn lemma_consume(pre: Seq<char>, w: Seq<char>, post: Seq<char>, b: LexSt)
    requires
        ignorable_line(w),
        b.pos == pre.len(),
        b.als,
    ensures
        lex_run(pre + w + post, b) == lex_run(pre + w + post, after_line(b, w.len() as int)),
{
    let s2 = pre + w + post;
    let j = pre.len() as int;
    assert forall|i: int| 0 <= i < w.len() implies #[trigger] w[i] == s2[i + j] by {
        assert((pre + w)[i + j] == w[i]);
    }
    assert(agree(w, s2, j, 0, w.len() as int));
    lemma_spaces(w, s2, j, 0, w.len() as int, 0);
    let ew = skip_spaces(w, 0);
    let e = j + ew;
    assert(s2[e] == w[ew]);
    let st2 = move_to(b, e);
    let bw = after_line(b, w.len() as int);
    assert(s2.len() == j + w.len() + post.len());
    assert(b.pos < s2.len());
    if ew == w.len() - 1 {
        assert(line_start(s2, b) == Step::Next(after_line(b, w.len() as int)));
    } else if w[ew] == '#' {
        lemma_to_newline(w, s2, j, 0, w.len() as int, ew);
        lemma_newline_at(w, ew);
        let m = move_to(st2, j + w.len() - 1);
        assert(line_start(s2, b) == Step::Next(m));
        assert(s2[m.pos] == w[w.len() - 1]);
        assert(skip_spaces(s2, m.pos) == m.pos);
        assert(line_start(s2, m) == Step::Next(after_line(b, w.len() as int)));
        assert(lex_run(s2, m) == lex_run(s2, bw));
        assert(lex_run(s2, b) == lex_run(s2, m));
    } else {
        assert(s2[e + 1] == w[ew + 1]);
        assert(line_start(s2, b) == Step::Next(after_line(b, w.len() as int)));
    }
}

/// At the boundary: the inserted line is passed over, then the tails agree.
proof fn lemma_junction(pre: Seq<char>, w: Seq<char>, post: Seq<char>, a: LexSt, b: LexSt)
    requires
        ignorable_line(w),
        shifted(a, b, 0),
        a.pos == pre.len(),
        a.als,
        a.col == 1,
    ensures
        same_but_lines(lex_run(pre + post, a).1, lex_run(pre + w + post, b).1),
{
    let s1 = pre + post;
    let s2 = pre + w + post;
    let j = pre.len() as int;
    let k = w.len() as int;
    lemma_consume(pre, w, post, b);
    let bw = after_line(b, k);
    assert forall|i: int| j <= i < s1.len() implies #[trigger] s1[i] == s2[i + k] by {
        assert(s1[i] == post[i - j]);
        assert(s2[i + k] == post[i - j]);
    }
    assert(agree(s1, s2, k, j, s1.len() as int));
    assert(shifted(a, bw, k));
    lemma_run_tail(s1, s2, k, j, a, bw);
}

/// Before the boundary both sources hold the same text, and the runs agree.
proof fn lemma_run_prefix(pre: Seq<char>, w: Seq<char>, post: Seq<char>, a: LexSt, b: LexSt)
    requires
        pre.len() >= 1,
        pre.last() == '\n',
        ignorable_line(w),
        shifted(a, b, 0),
        0 <= a.pos <= pre.len(),
        a.pos == pre.len() ==> a.als && a.col == 1,
    ensures
        same_but_lines(lex_run(pre + post, a).1, lex_run(pre + w + post, b).1),
    decreases pre.len() - a.pos,
{
    let s1 = pre + post;
    let s2 = pre + w + post;
    let j = pre.len() as int;
    if a.pos == j {
        lemma_junction(pre, w, post, a, b);
    } else {
        assert forall|i: int| 0 <= i < j implies #[trigger] s1[i] == s2[i + 0] by {
            assert((pre + w)[i] == pre[i]);
        }
        assert(s1[j - 1] == pre[j - 1]);
        assert(agree(s1, s2, 0, 0, j));
        assert(!tail_mode(s1, s2, 0, j));
        lemma_step(s1, s2, 0, 0, j, a, b);
        match (lex_step(s1, a), lex_step(s2, b)) {
            (Step::Next(x), Step::Next(y)) => {
                if a.pos < x.pos <= s1.len() {
                    lemma_run_prefix(pre, w, post, x, y);
                }
            },
            (Step::Stop(x), Step::Stop(y)) => {
                lemma_finish(x, y, 0);
            },
            _ => {},
        }
    }
}

} // verus!
