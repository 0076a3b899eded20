//! The grammar as a recursive-descent specification over token views.
//! Every function takes a fuel bound `f` that the executable parser
//! provably never exhausts.
use vstd::prelude::*;
use crate::lexer::token::{TokenKindG, TokenKindView, TokenView, kind_dbg, spec_is_keyword};
use super::error::ParserErrorView;
use super::ast::{SExpr, SStmt};

verus! {

/// Binding strength of infix operators.
#[derive(Debug, Clone, Copy, PartialEq, PartialOrd)]
pub enum Precedence {
    Lowest,
    Or,
    And,
    Equality,
    Comparison,
    Term,
    Factor,
    Power,
    Unary,
    Primary,
}

pub open spec fn prec_level(p: Precedence) -> nat {
    match p {
        Precedence::Lowest => 0,
        Precedence::Or => 1,
        Precedence::And => 2,
        Precedence::Equality => 3,
        Precedence::Comparison => 4,
        Precedence::Term => 5,
        Precedence::Factor => 6,
        Precedence::Power => 7,
        Precedence::Unary => 8,
        Precedence::Primary => 9,
    }
}

/// Precedence of a token as an infix operator.
pub open spec fn kind_prec(k: TokenKindView) -> Precedence {
    match k {
        TokenKindG::Or => Precedence::Or,
        TokenKindG::And => Precedence::And,
        TokenKindG::Equal | TokenKindG::NotEqual => Precedence::Equality,
        TokenKindG::LessThan | TokenKindG::GreaterThan | TokenKindG::LessEqual
        | TokenKindG::GreaterEqual => Precedence::Comparison,
        TokenKindG::Plus | TokenKindG::Minus => Precedence::Term,
        TokenKindG::Multiply | TokenKindG::Divide | TokenKindG::Modulo => Precedence::Factor,
        TokenKindG::Power => Precedence::Power,
        _ => Precedence::Lowest,
    }
}

/// The operator text of an infix token.
pub open spec fn infix_op(k: TokenKindView) -> Option<Seq<char>> {
    match k {
        TokenKindG::Plus => Some("+"@),
        TokenKindG::Minus => Some("-"@),
        TokenKindG::Multiply => Some("*"@),
        TokenKindG::Divide => Some("/"@),
        TokenKindG::Modulo => Some("%"@),
        TokenKindG::Power => Some("**"@),
        TokenKindG::Equal => Some("=="@),
        TokenKindG::NotEqual => Some("!="@),
        TokenKindG::LessThan => Some("<"@),
        TokenKindG::GreaterThan => Some(">"@),
        TokenKindG::LessEqual => Some("<="@),
        TokenKindG::GreaterEqual => Some(">="@),
        TokenKindG::And => Some("and"@),
        TokenKindG::Or => Some("or"@),
        _ => None,
    }
}

/// Binary operators that may not directly follow another binary operator.
pub open spec fn is_binary_start(k: TokenKindView) -> bool {
    match k {
        TokenKindG::Plus | TokenKindG::Multiply | TokenKindG::Divide | TokenKindG::Modulo
        | TokenKindG::Power | TokenKindG::Equal | TokenKindG::NotEqual | TokenKindG::LessThan
        | TokenKindG::GreaterThan | TokenKindG::LessEqual | TokenKindG::GreaterEqual
        | TokenKindG::And | TokenKindG::Or => true,
        _ => false,
    }
}

pub type PErr = ParserErrorView;

/// The token at `pos`, if any.
pub open spec fn cur(ts: Seq<TokenView>, pos: int) -> Option<TokenView> {
    if 0 <= pos < ts.len() { Some(ts[pos]) } else { None }
}

pub open spec fn kind_is(ts: Seq<TokenView>, pos: int, k: TokenKindView) -> bool {
    cur(ts, pos) matches Some(t) && t.kind == k
}

/// Position of the last token, or (0, 0) without tokens.
pub open spec fn last_lc(ts: Seq<TokenView>) -> (usize, usize) {
    if ts.len() > 0 { (ts.last().line, ts.last().column) } else { (0, 0) }
}

/// Position of the token at `pos`, or of the last token.
pub open spec fn lc_at(ts: Seq<TokenView>, pos: int) -> (usize, usize) {
    match cur(ts, pos) {
        Some(t) => (t.line, t.column),
        None => last_lc(ts),
    }
}

pub open spec fn perr(m: Seq<char>, lc: (usize, usize)) -> PErr {
    ParserErrorView { message: m, line: lc.0, column: lc.1 }
}

pub open spec fn perr_tok(m: Seq<char>, t: TokenView) -> PErr {
    ParserErrorView { message: m, line: t.line, column: t.column }
}

pub open spec fn out_of_fuel() -> PErr {
    ParserErrorView { message: seq![], line: 0, column: 0 }
}

pub open spec fn expect_msg(k: TokenKindView) -> Seq<char> {
    "Expected "@ + kind_dbg(k)
}

/// Consumes a token of kind `k` or fails with `Expected <kind>`.
pub open spec fn p_expect(ts: Seq<TokenView>, pos: int, k: TokenKindView) -> (int, Result<TokenView, PErr>) {
    if kind_is(ts, pos, k) {
        (pos + 1, Ok(ts[pos]))
    } else {
        (pos, Err(perr(expect_msg(k), lc_at(ts, pos))))
    }
}

/// First position at or after `pos` that does not hold a `Newline`.
pub open spec fn skip_newlines(ts: Seq<TokenView>, pos: int) -> int
    decreases ts.len() - pos,
{
    if 0 <= pos < ts.len() && ts[pos].kind == TokenKindG::<Seq<char>>::Newline {
        skip_newlines(ts, pos + 1)
    } else {
        pos
    }
}

/// An expression: a prefix followed by infix operators binding tighter than `prec`.
pub open spec fn p_expression(f: nat, ts: Seq<TokenView>, pos: int, prec: Precedence) -> (int, Result<SExpr, PErr>)
    decreases f, 0nat,
{
    if f == 0 {
        (pos, Err(out_of_fuel()))
    } else {
        let (p1, r) = p_prefix((f - 1) as nat, ts, pos);
        match r {
            Err(e) => (p1, Err(e)),
            Ok(left) => p_expr_loop((f - 1) as nat, ts, p1, left, prec),
        }
    }
}

pub open spec fn p_expr_loop(f: nat, ts: Seq<TokenView>, pos: int, left: SExpr, prec: Precedence) -> (int, Result<SExpr, PErr>)
    decreases f, 0nat,
{
    if f == 0 {
        (pos, Err(out_of_fuel()))
    } else {
        match cur(ts, pos) {
            None => (pos, Ok(left)),
            Some(t) => if t.kind == TokenKindG::<Seq<char>>::Newline || t.kind
                == TokenKindG::<Seq<char>>::Dedent || t.kind == TokenKindG::<Seq<char>>::Eof
                || t.kind == TokenKindG::<Seq<char>>::Colon {
                (pos, Ok(left))
            } else if prec_level(kind_prec(t.kind)) <= prec_level(prec) {
                (pos, Ok(left))
            } else {
                let (p2, r) = p_infix((f - 1) as nat, ts, pos, left);
                match r {
                    Err(e) => (p2, Err(e)),
                    Ok(e) => p_expr_loop((f - 1) as nat, ts, p2, e, prec),
                }
            },
        }
    }
}

pub open spec fn p_infix(f: nat, ts: Seq<TokenView>, pos: int, left: SExpr) -> (int, Result<SExpr, PErr>)
    decreases f, 0nat,
{
    if f == 0 {
        (pos, Err(out_of_fuel()))
    } else {
        match cur(ts, pos) {
            None => (pos, Err(perr("Unexpected EOF during infix parsing"@, last_lc(ts)))),
            Some(t) => match infix_op(t.kind) {
                None => (pos, Err(perr_tok("Unexpected infix operator: "@ + kind_dbg(t.kind), t))),
                Some(op) => {
                    let p1 = pos + 1;
                    if cur(ts, p1) is Some && is_binary_start(ts[p1].kind) {
                        (
                            p1,
                            Err(perr_tok("Double operator detected: missing expression between operators"@, ts[p1])),
                        )
                    } else {
                        let (p2, r) = p_expression((f - 1) as nat, ts, p1, kind_prec(t.kind));
                        match r {
                            Err(e) => (p2, Err(e)),
                            Ok(right) => (p2, Ok(SExpr::Binary(Box::new(left), op, Box::new(right)))),
                        }
                    }
                },
            },
        }
    }
}

pub open spec fn p_prefix(f: nat, ts: Seq<TokenView>, pos: int) -> (int, Result<SExpr, PErr>)
    decreases f, 0nat,
{
    if f == 0 {
        (pos, Err(out_of_fuel()))
    } else {
        match cur(ts, pos) {
            None => (pos, Err(perr("Unexpected EOF while parsing expression"@, last_lc(ts)))),
            Some(t) => match t.kind {
                TokenKindG::Identifier(n) => if kind_is(ts, pos + 1, TokenKindG::LParen) {
                    p_call((f - 1) as nat, ts, pos + 1, n)
                } else {
                    (pos + 1, Ok(SExpr::Identifier(n)))
                },
                TokenKindG::Number(v) => (pos + 1, Ok(SExpr::Integer(v))),
                TokenKindG::String(s) => (pos + 1, Ok(SExpr::Str(s))),
                TokenKindG::True => (pos + 1, Ok(SExpr::Boolean(true))),
                TokenKindG::False => (pos + 1, Ok(SExpr::Boolean(false))),
                TokenKindG::Nil => (pos + 1, Ok(SExpr::Nil)),
                TokenKindG::LParen => {
                    let (p2, r) = p_expression((f - 1) as nat, ts, pos + 1, Precedence::Lowest);
                    match r {
                        Err(e) => (p2, Err(e)),
                        Ok(e) => match cur(ts, p2) {
                            Some(nx) => if nx.kind == TokenKindG::<Seq<char>>::RParen {
                                (p2 + 1, Ok(e))
                            } else {
                                (p2, Err(perr_tok("Expected ')', found "@ + kind_dbg(nx.kind), nx)))
                            },
                            None => (p2, Err(perr("Expected ')', found EOF"@, last_lc(ts)))),
                        },
                    }
                },
                TokenKindG::LBracket => if kind_is(ts, pos + 1, TokenKindG::RBracket) {
                    (pos + 2, Ok(SExpr::Array(seq![])))
                } else {
                    p_elems((f - 1) as nat, ts, pos + 1, seq![])
                },
                TokenKindG::Minus | TokenKindG::Not => {
                    let op = if t.kind == TokenKindG::<Seq<char>>::Minus { "-"@ } else { "not"@ };
                    let (p2, r) = p_expression((f - 1) as nat, ts, pos + 1, Precedence::Unary);
                    match r {
                        Err(e) => (p2, Err(e)),
                        Ok(right) => (p2, Ok(SExpr::Unary(op, Box::new(right)))),
                    }
                },
                TokenKindG::Plus | TokenKindG::Multiply | TokenKindG::Divide | TokenKindG::Modulo
                | TokenKindG::Power => (
                    pos,
                    Err(perr_tok("Unexpected operator: missing left operand"@, t)),
                ),
                _ => (pos, Err(perr_tok("Unexpected token for expression prefix: "@ + kind_dbg(t.kind), t))),
            },
        }
    }
}

/// Array elements after `[`, collected into `elems`.
pub open spec fn p_elems(f: nat, ts: Seq<TokenView>, pos: int, elems: Seq<SExpr>) -> (int, Result<SExpr, PErr>)
    decreases f, 0nat,
{
    if f == 0 {
        (pos, Err(out_of_fuel()))
    } else if cur(ts, pos) is None {
        (pos, Err(perr("Expected ']' or expression, found EOF"@, last_lc(ts))))
    } else {
        let (p2, r) = p_expression((f - 1) as nat, ts, pos, Precedence::Lowest);
        match r {
            Err(e) => (p2, Err(e)),
            Ok(e) => {
                let el2 = elems.push(e);
                match cur(ts, p2) {
                    Some(t) => if t.kind == TokenKindG::<Seq<char>>::Comma {
                        p_elems((f - 1) as nat, ts, p2 + 1, el2)
                    } else if t.kind == TokenKindG::<Seq<char>>::RBracket {
                        (p2 + 1, Ok(SExpr::Array(el2)))
                    } else {
                        (p2, Err(perr_tok("Expected ',' or ']', found "@ + kind_dbg(t.kind), t)))
                    },
                    None => (p2, Err(perr("Expected ',' or ']', found EOF"@, last_lc(ts)))),
                }
            },
        }
    }
}

/// A call of `name` whose `(` is at `pos`.
pub open spec fn p_call(f: nat, ts: Seq<TokenView>, pos: int, name: Seq<char>) -> (int, Result<SExpr, PErr>)
    decreases f, 0nat,
{
    if f == 0 {
        (pos, Err(out_of_fuel()))
    } else if kind_is(ts, pos + 1, TokenKindG::RParen) {
        (pos + 2, Ok(SExpr::Call(name, seq![])))
    } else {
        p_args((f - 1) as nat, ts, pos + 1, name, seq![])
    }
}

/// Call arguments, collected into `args`.
pub open spec fn p_args(f: nat, ts: Seq<TokenView>, pos: int, name: Seq<char>, args: Seq<SExpr>) -> (int, Result<SExpr, PErr>)
    decreases f, 0nat,
{
    if f == 0 {
        (pos, Err(out_of_fuel()))
    } else {
        let (p2, r) = p_expression((f - 1) as nat, ts, pos, Precedence::Lowest);
        match r {
            Err(e) => (p2, Err(e)),
            Ok(a) => {
                let args2 = args.push(a);
                match cur(ts, p2) {
                    Some(t) => if t.kind == TokenKindG::<Seq<char>>::Comma {
                        if kind_is(ts, p2 + 1, TokenKindG::RParen) {
                            (p2 + 2, Ok(SExpr::Call(name, args2)))
                        } else {
                            p_args((f - 1) as nat, ts, p2 + 1, name, args2)
                        }
                    } else if t.kind == TokenKindG::<Seq<char>>::RParen {
                        (p2 + 1, Ok(SExpr::Call(name, args2)))
                    } else {
                        (
                            p2,
                            Err(perr_tok("Expected ',' or ')' in argument list, found "@ + kind_dbg(t.kind), t)),
                        )
                    },
                    None => (p2, Err(perr("Expected ',' or ')' in argument list, found EOF"@, last_lc(ts)))),
                }
            },
        }
    }
}

} // verus!

verus! {

/// Statements of an indented block, up to its `Dedent`. `lc` is where the
/// block was expected.
pub open spec fn p_block_loop(
    f: nat,
    ts: Seq<TokenView>,
    pos: int,
    last: int,
    stmts: Seq<SStmt>,
    lc: (usize, usize),
) -> (int, Result<Seq<SStmt>, PErr>)
    decreases f, 0nat,
{
    if f == 0 {
        (pos, Err(out_of_fuel()))
    } else {
        match cur(ts, pos) {
            None => (pos, Err(perr("Expected end of block (DEDENT), found EOF"@, lc))),
            Some(t) => if t.kind == TokenKindG::<Seq<char>>::Dedent {
                (pos + 1, Ok(stmts))
            } else if t.kind == TokenKindG::<Seq<char>>::Eof {
                (pos, Err(perr_tok("Expected end of block (DEDENT), found EOF"@, t)))
            } else if t.kind == TokenKindG::<Seq<char>>::Newline {
                p_block_loop((f - 1) as nat, ts, pos + 1, pos + 1, stmts, lc)
            } else {
                let (p2, r) = p_statement((f - 1) as nat, ts, pos);
                match r {
                    Err(e) => (p2, Err(e)),
                    Ok(s) => if p2 == last {
                        (p2, Err(perr_tok("Parser stuck in block"@, t)))
                    } else {
                        p_block_loop((f - 1) as nat, ts, p2, p2, stmts.push(s), lc)
                    },
                }
            },
        }
    }
}

/// An indented block: optional newlines, `Indent`, statements, `Dedent`.
pub open spec fn p_block(f: nat, ts: Seq<TokenView>, pos: int) -> (int, Result<Seq<SStmt>, PErr>)
    decreases f, 0nat,
{
    if f == 0 {
        (pos, Err(out_of_fuel()))
    } else {
        let lc = lc_at(ts, pos);
        let q = skip_newlines(ts, pos);
        match cur(ts, q) {
            Some(t) => if t.kind != TokenKindG::<Seq<char>>::Indent {
                (q, Err(perr_tok("Expected indented block, found "@ + kind_dbg(t.kind), t)))
            } else {
                p_block_loop((f - 1) as nat, ts, q + 1, q + 1, seq![], lc)
            },
            None => (q, Err(perr("Expected indented block, found EOF"@, lc))),
        }
    }
}

/// An identifier after a keyword: its name, or the error `Expected <what>, found ...`.
pub open spec fn p_name_after(ts: Seq<TokenView>, pos: int, what: Seq<char>, lc: (usize, usize)) -> (int, Result<Seq<char>, PErr>) {
    match cur(ts, pos) {
        Some(t) => match t.kind {
            TokenKindG::Identifier(n) => (pos + 1, Ok(n)),
            _ => (pos, Err(perr_tok("Expected "@ + what + ", found "@ + kind_dbg(t.kind), t))),
        },
        None => (pos, Err(perr("Expected "@ + what + ", found EOF"@, lc))),
    }
}

pub open spec fn p_let(f: nat, ts: Seq<TokenView>, pos: int) -> (int, Result<SStmt, PErr>)
    decreases f, 0nat,
{
    if f == 0 {
        (pos, Err(out_of_fuel()))
    } else {
        let lc = lc_at(ts, pos);
        let (p1, rn) = p_name_after(ts, pos + 1, "identifier after 'let'"@, lc);
        match rn {
            Err(e) => (p1, Err(e)),
            Ok(name) => {
                let (p2, ra) = p_expect(ts, p1, TokenKindG::Assign);
                match ra {
                    Err(e) => (p2, Err(e)),
                    Ok(_) => {
                        let (p3, rv) = p_expression((f - 1) as nat, ts, p2, Precedence::Lowest);
                        match rv {
                            Err(e) => (p3, Err(e)),
                            Ok(v) => (p3, Ok(SStmt::Let(name, v))),
                        }
                    },
                }
            },
        }
    }
}

pub open spec fn p_assignment(f: nat, ts: Seq<TokenView>, pos: int) -> (int, Result<SStmt, PErr>)
    decreases f, 0nat,
{
    if f == 0 {
        (pos, Err(out_of_fuel()))
    } else {
        match cur(ts, pos) {
            Some(t) => match t.kind {
                TokenKindG::Identifier(name) => {
                    let (p3, rv) = p_expression((f - 1) as nat, ts, pos + 2, Precedence::Lowest);
                    match rv {
                        Err(e) => (p3, Err(e)),
                        Ok(v) => (p3, Ok(SStmt::Assign(name, v))),
                    }
                },
                _ => (pos, Err(perr_tok("Expected identifier for assignment, found "@ + kind_dbg(t.kind), t))),
            },
            None => (pos, Err(perr("Expected identifier for assignment, found EOF"@, last_lc(ts)))),
        }
    }
}

pub open spec fn p_write(f: nat, ts: Seq<TokenView>, pos: int) -> (int, Result<SStmt, PErr>)
    decreases f, 0nat,
{
    if f == 0 {
        (pos, Err(out_of_fuel()))
    } else {
        let (p1, rv) = p_expression((f - 1) as nat, ts, pos + 1, Precedence::Lowest);
        match rv {
            Err(e) => (p1, Err(e)),
            Ok(v) => (p1, Ok(SStmt::Write(v))),
        }
    }
}

/// A condition followed by `:` and a block.
pub open spec fn p_cond_block(f: nat, ts: Seq<TokenView>, pos: int) -> (int, Result<(SExpr, Seq<SStmt>), PErr>)
    decreases f, 0nat,
{
    if f == 0 {
        (pos, Err(out_of_fuel()))
    } else {
        let (p1, rc) = p_expression((f - 1) as nat, ts, pos, Precedence::Lowest);
        match rc {
            Err(e) => (p1, Err(e)),
            Ok(c) => {
                let (p2, rk) = p_expect(ts, p1, TokenKindG::Colon);
                match rk {
                    Err(e) => (p2, Err(e)),
                    Ok(_) => {
                        let (p3, rb) = p_block((f - 1) as nat, ts, p2);
                        match rb {
                            Err(e) => (p3, Err(e)),
                            Ok(b) => (p3, Ok((c, b))),
                        }
                    },
                }
            },
        }
    }
}

pub open spec fn p_if(f: nat, ts: Seq<TokenView>, pos: int) -> (int, Result<SStmt, PErr>)
    decreases f, 0nat,
{
    if f == 0 {
        (pos, Err(out_of_fuel()))
    } else {
        let (p1, r) = p_cond_block((f - 1) as nat, ts, pos + 1);
        match r {
            Err(e) => (p1, Err(e)),
            Ok((c, cons)) => if kind_is(ts, p1, TokenKindG::Else) {
                let (p2, rk) = p_expect(ts, p1 + 1, TokenKindG::Colon);
                match rk {
                    Err(e) => (p2, Err(e)),
                    Ok(_) => {
                        let (p3, rb) = p_block((f - 1) as nat, ts, p2);
                        match rb {
                            Err(e) => (p3, Err(e)),
                            Ok(alt) => (p3, Ok(SStmt::If(c, cons, Some(alt)))),
                        }
                    },
                }
            } else {
                (p1, Ok(SStmt::If(c, cons, None)))
            },
        }
    }
}

pub open spec fn p_while(f: nat, ts: Seq<TokenView>, pos: int) -> (int, Result<SStmt, PErr>)
    decreases f, 0nat,
{
    if f == 0 {
        (pos, Err(out_of_fuel()))
    } else {
        let (p1, r) = p_cond_block((f - 1) as nat, ts, pos + 1);
        match r {
            Err(e) => (p1, Err(e)),
            Ok((c, body)) => (p1, Ok(SStmt::While(c, body))),
        }
    }
}

pub open spec fn p_for(f: nat, ts: Seq<TokenView>, pos: int) -> (int, Result<SStmt, PErr>)
    decreases f, 0nat,
{
    if f == 0 {
        (pos, Err(out_of_fuel()))
    } else {
        let lc = lc_at(ts, pos);
        let (p1, rn) = p_name_after(ts, pos + 1, "identifier after 'for'"@, lc);
        match rn {
            Err(e) => (p1, Err(e)),
            Ok(item) => {
                let (p2, ri) = p_expect(ts, p1, TokenKindG::In);
                match ri {
                    Err(e) => (p2, Err(e)),
                    Ok(_) => {
                        let (p3, r) = p_cond_block((f - 1) as nat, ts, p2);
                        match r {
                            Err(e) => (p3, Err(e)),
                            Ok((list, body)) => (p3, Ok(SStmt::For(item, list, body))),
                        }
                    },
                }
            },
        }
    }
}

/// Parameter names of a declaration, from the first one to `)`.
pub open spec fn p_params(ts: Seq<TokenView>, pos: int, ps: Seq<Seq<char>>, lc: (usize, usize)) -> (int, Result<Seq<Seq<char>>, PErr>)
    decreases ts.len() - pos,
{
    match cur(ts, pos) {
        Some(t) => match t.kind {
            TokenKindG::Identifier(n) => if spec_is_keyword(TokenKindG::<Seq<char>>::Identifier(n)) {
                (pos, Err(perr_tok("Parameter name '"@ + n + "' is a reserved keyword"@, t)))
            } else {
                let ps2 = ps.push(n);
                match cur(ts, pos + 1) {
                    Some(t2) => if t2.kind == TokenKindG::<Seq<char>>::Comma {
                        match cur(ts, pos + 2) {
                            Some(nx) => if nx.kind == TokenKindG::<Seq<char>>::RParen {
                                (pos + 2, Ok(ps2))
                            } else if nx.kind == TokenKindG::<Seq<char>>::Comma {
                                (pos + 2, Err(perr_tok("Unexpected double comma in parameter list"@, nx)))
                            } else {
                                p_params(ts, pos + 2, ps2, lc)
                            },
                            None => (pos + 2, Err(perr("Expected parameter name after comma, found EOF"@, lc))),
                        }
                    } else if t2.kind == TokenKindG::<Seq<char>>::RParen {
                        (pos + 1, Ok(ps2))
                    } else {
                        (
                            pos + 1,
                            Err(perr_tok("Expected ',' or ')' in parameter list, found "@ + kind_dbg(t2.kind), t2)),
                        )
                    },
                    None => (pos + 1, Err(perr("Expected ',' or ')' in parameter list, found EOF"@, lc))),
                }
            },
            TokenKindG::Comma => (pos, Err(perr_tok("Unexpected comma: expected parameter name before comma"@, t))),
            _ => (pos, Err(perr_tok("Expected parameter name, found "@ + kind_dbg(t.kind), t))),
        },
        None => (pos, Err(perr("Expected parameter name or ')', found EOF"@, lc))),
    }
}

pub open spec fn p_func(f: nat, ts: Seq<TokenView>, pos: int) -> (int, Result<SStmt, PErr>)
    decreases f, 0nat,
{
    if f == 0 {
        (pos, Err(out_of_fuel()))
    } else {
        let lc = lc_at(ts, pos);
        let (p1, rn) = p_name_after(ts, pos + 1, "function name after 'function'"@, lc);
        match rn {
            Err(e) => (p1, Err(e)),
            Ok(name) => if spec_is_keyword(TokenKindG::<Seq<char>>::Identifier(name)) {
                (p1, Err(perr("Function name '"@ + name + "' is a reserved keyword"@, lc)))
            } else {
                let (p2, rl) = p_expect(ts, p1, TokenKindG::LParen);
                match rl {
                    Err(e) => (p2, Err(e)),
                    Ok(_) => {
                        let (p3, rp) = if cur(ts, p2) is Some && ts[p2].kind
                            != TokenKindG::<Seq<char>>::RParen {
                            p_params(ts, p2, seq![], lc)
                        } else {
                            (p2, Ok(seq![]))
                        };
                        match rp {
                            Err(e) => (p3, Err(e)),
                            Ok(params) => {
                                let (p4, rr) = p_expect(ts, p3, TokenKindG::RParen);
                                match rr {
                                    Err(e) => (p4, Err(e)),
                                    Ok(_) => {
                                        let (p5, rc) = p_expect(ts, p4, TokenKindG::Colon);
                                        match rc {
                                            Err(e) => (p5, Err(e)),
                                            Ok(_) => {
                                                let (p6, rb) = p_block((f - 1) as nat, ts, p5);
                                                match rb {
                                                    Err(e) => (p6, Err(e)),
                                                    Ok(body) => (p6, Ok(SStmt::Func(name, params, body))),
                                                }
                                            },
                                        }
                                    },
                                }
                            },
                        }
                    },
                }
            },
        }
    }
}

pub open spec fn p_return(f: nat, ts: Seq<TokenView>, pos: int) -> (int, Result<SStmt, PErr>)
    decreases f, 0nat,
{
    if f == 0 {
        (pos, Err(out_of_fuel()))
    } else {
        match cur(ts, pos + 1) {
            Some(t) => if t.kind == TokenKindG::<Seq<char>>::Newline || t.kind
                == TokenKindG::<Seq<char>>::Dedent || t.kind == TokenKindG::<Seq<char>>::Eof {
                (pos + 1, Ok(SStmt::Return(None)))
            } else {
                let (p2, rv) = p_expression((f - 1) as nat, ts, pos + 1, Precedence::Lowest);
                match rv {
                    Err(e) => (p2, Err(e)),
                    Ok(v) => (p2, Ok(SStmt::Return(Some(v)))),
                }
            },
            None => (pos + 1, Ok(SStmt::Return(None))),
        }
    }
}

/// A braced block at `pos`: `{`, newlines, then `}` at once (an empty
/// block) or an indented block closed by `}`.
pub open spec fn p_brace(f: nat, ts: Seq<TokenView>, pos: int) -> (int, Result<SStmt, PErr>)
    decreases f, 0nat,
{
    if f == 0 {
        (pos, Err(out_of_fuel()))
    } else {
        let q = skip_newlines(ts, pos + 1);
        if kind_is(ts, q, TokenKindG::RBrace) {
            (q + 1, Ok(SStmt::Block(seq![])))
        } else {
            let (p1, rb) = p_block((f - 1) as nat, ts, pos + 1);
            match rb {
                Err(e) => (p1, Err(e)),
                Ok(b) => {
                    let (p2, rc) = p_expect(ts, p1, TokenKindG::RBrace);
                    match rc {
                        Err(e) => (p2, Err(e)),
                        Ok(_) => (p2, Ok(SStmt::Block(b))),
                    }
                },
            }
        }
    }
}

/// Whether a token starts an expression statement.
pub open spec fn starts_expression(k: TokenKindView) -> bool {
    match k {
        TokenKindG::Number(_) | TokenKindG::String(_) | TokenKindG::True | TokenKindG::False
        | TokenKindG::Nil | TokenKindG::LParen | TokenKindG::LBracket | TokenKindG::Minus | TokenKindG::Not => true,
        _ => false,
    }
}

pub open spec fn p_statement(f: nat, ts: Seq<TokenView>, pos: int) -> (int, Result<SStmt, PErr>)
    decreases f, 1nat,
{
    if f == 0 {
        (pos, Err(out_of_fuel()))
    } else {
        match cur(ts, pos) {
            None => (pos, Err(perr("Unexpected EOF while parsing statement"@, last_lc(ts)))),
            Some(t) => match t.kind {
                TokenKindG::Let => p_let((f - 1) as nat, ts, pos),
                TokenKindG::Write => p_write((f - 1) as nat, ts, pos),
                TokenKindG::If => p_if((f - 1) as nat, ts, pos),
                TokenKindG::While => p_while((f - 1) as nat, ts, pos),
                TokenKindG::For => p_for((f - 1) as nat, ts, pos),
                TokenKindG::Func => p_func((f - 1) as nat, ts, pos),
                TokenKindG::Return => p_return((f - 1) as nat, ts, pos),
                TokenKindG::LBrace => p_brace((f - 1) as nat, ts, pos),
                TokenKindG::Else => (pos, Err(perr_tok("else without matching if"@, t))),
                TokenKindG::Identifier(_) => if kind_is(ts, pos + 1, TokenKindG::Assign) {
                    p_assignment((f - 1) as nat, ts, pos)
                } else {
                    p_expr_statement((f - 1) as nat, ts, pos)
                },
                _ => if starts_expression(t.kind) {
                    p_expr_statement((f - 1) as nat, ts, pos)
                } else {
                    (pos, Err(perr_tok("Unexpected token: does not start a valid statement"@, t)))
                },
            },
        }
    }
}

pub open spec fn p_expr_statement(f: nat, ts: Seq<TokenView>, pos: int) -> (int, Result<SStmt, PErr>)
    decreases f, 0nat,
{
    if f == 0 {
        (pos, Err(out_of_fuel()))
    } else {
        let (p2, rv) = p_expression((f - 1) as nat, ts, pos, Precedence::Lowest);
        match rv {
            Err(e) => (p2, Err(e)),
            Ok(v) => (p2, Ok(SStmt::Expr(v))),
        }
    }
}

/// Top-level statements up to `Eof`.
pub open spec fn p_program_loop(f: nat, ts: Seq<TokenView>, pos: int, last: int, stmts: Seq<SStmt>) -> (int, Result<Seq<SStmt>, PErr>)
    decreases f, 0nat,
{
    if f == 0 {
        (pos, Err(out_of_fuel()))
    } else {
        match cur(ts, pos) {
            None => (pos, Ok(stmts)),
            Some(t) => if t.kind == TokenKindG::<Seq<char>>::Eof {
                (pos, Ok(stmts))
            } else if t.kind == TokenKindG::<Seq<char>>::Newline {
                p_program_loop((f - 1) as nat, ts, pos + 1, last, stmts)
            } else {
                let (p2, r) = p_statement((f - 1) as nat, ts, pos);
                match r {
                    Err(e) => (p2, Err(e)),
                    Ok(s) => if p2 == last {
                        (p2, Err(perr("Parser stuck at token - cannot make progress"@, lc_at(ts, p2))))
                    } else {
                        p_program_loop((f - 1) as nat, ts, p2, p2, stmts.push(s))
                    },
                }
            },
        }
    }
}

/// Fuel that suffices for a parse starting at `pos` at level `rank`.
pub open spec fn fuel(ts: Seq<TokenView>, pos: int, rank: nat) -> nat {
    16 * rem(ts, pos) + rank
}

/// Tokens left from `pos`.
pub open spec fn rem(ts: Seq<TokenView>, pos: int) -> nat {
    if 0 <= pos < ts.len() { (ts.len() - pos) as nat } else { 0 }
}

/// The program parsed from `pos`.
pub open spec fn parse_program_spec(ts: Seq<TokenView>, pos: int) -> (int, Result<Seq<SStmt>, PErr>) {
    p_program_loop(fuel(ts, pos, 8), ts, pos, pos, seq![])
}

/// The statement parsed at `pos`.
pub open spec fn parse_statement_spec(ts: Seq<TokenView>, pos: int) -> (int, Result<SStmt, PErr>) {
    p_statement(fuel(ts, pos, 7), ts, pos)
}

/// The expression parsed at `pos` with binding threshold `prec`.
pub open spec fn parse_expression_spec(ts: Seq<TokenView>, pos: int, prec: Precedence) -> (int, Result<SExpr, PErr>) {
    p_expression(fuel(ts, pos, 5), ts, pos, prec)
}

} // verus!
