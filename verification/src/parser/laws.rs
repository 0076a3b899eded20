//! Laws of the parser: how infix operators group.
use vstd::prelude::*;
use crate::lexer::token::{TokenKindG, TokenView};
use super::ast::SExpr;
use super::spec::{Precedence, prec_level, kind_prec, p_expression, p_expr_loop, p_infix, p_prefix};

verus! {

/// The infix operators bind ever more tightly in this order: `or`, `and`,
/// equality, ordering comparisons, `+` and `-`, `*` `/` and `%`, and `**`;
/// operators of one group bind alike, and every operator binds more tightly
/// than the start of an expression.
pub proof fn law_precedence_order()
    ensures
        prec_level(Precedence::Lowest) < prec_level(kind_prec(TokenKindG::<Seq<char>>::Or)),
        prec_level(kind_prec(TokenKindG::<Seq<char>>::Or)) < prec_level(kind_prec(TokenKindG::<Seq<char>>::And)),
        prec_level(kind_prec(TokenKindG::<Seq<char>>::And)) < prec_level(kind_prec(TokenKindG::<Seq<char>>::Equal)),
        prec_level(kind_prec(TokenKindG::<Seq<char>>::Equal)) == prec_level(kind_prec(TokenKindG::<Seq<char>>::NotEqual)),
        prec_level(kind_prec(TokenKindG::<Seq<char>>::Equal)) < prec_level(kind_prec(TokenKindG::<Seq<char>>::LessThan)),
        prec_level(kind_prec(TokenKindG::<Seq<char>>::LessThan)) == prec_level(kind_prec(TokenKindG::<Seq<char>>::GreaterThan)),
        prec_level(kind_prec(TokenKindG::<Seq<char>>::LessThan)) == prec_level(kind_prec(TokenKindG::<Seq<char>>::LessEqual)),
        prec_level(kind_prec(TokenKindG::<Seq<char>>::LessThan)) == prec_level(kind_prec(TokenKindG::<Seq<char>>::GreaterEqual)),
        prec_level(kind_prec(TokenKindG::<Seq<char>>::LessThan)) < prec_level(kind_prec(TokenKindG::<Seq<char>>::Plus)),
        prec_level(kind_prec(TokenKindG::<Seq<char>>::Plus)) == prec_level(kind_prec(TokenKindG::<Seq<char>>::Minus)),
        prec_level(kind_prec(TokenKindG::<Seq<char>>::Plus)) < prec_level(kind_prec(TokenKindG::<Seq<char>>::Multiply)),
        prec_level(kind_prec(TokenKindG::<Seq<char>>::Multiply)) == prec_level(kind_prec(TokenKindG::<Seq<char>>::Divide)),
        prec_level(kind_prec(TokenKindG::<Seq<char>>::Multiply)) == prec_level(kind_prec(TokenKindG::<Seq<char>>::Modulo)),
        prec_level(kind_prec(TokenKindG::<Seq<char>>::Multiply)) < prec_level(kind_prec(TokenKindG::<Seq<char>>::Power)),
{
}

/// `and` binds more tightly than `or`: for any names, the tokens of
/// `x or y and z` parse as `x or (y and z)`.
pub proof fn law_and_binds_tighter_than_or(
    ts: Seq<TokenView>,
    x: Seq<char>,
    y: Seq<char>,
    z: Seq<char>,
    f: nat,
)
    requires
        ts.len() == 6,
        ts[0].kind == TokenKindG::Identifier(x),
        ts[1].kind == TokenKindG::<Seq<char>>::Or,
        ts[2].kind == TokenKindG::Identifier(y),
        ts[3].kind == TokenKindG::<Seq<char>>::And,
        ts[4].kind == TokenKindG::Identifier(z),
        ts[5].kind == TokenKindG::<Seq<char>>::Eof,
        f >= 10,
    ensures
        p_expression(f, ts, 0, Precedence::Lowest) == (
            5int,
            Ok::<SExpr, super::spec::PErr>(
                SExpr::Binary(
                    Box::new(SExpr::Identifier(x)),
                    "or"@,
                    Box::new(
                        SExpr::Binary(
                            Box::new(SExpr::Identifier(y)),
                            "and"@,
                            Box::new(SExpr::Identifier(z)),
                        ),
                    ),
                ),
            ),
        ),
{
    let yz = SExpr::Binary(Box::new(SExpr::Identifier(y)), "and"@, Box::new(SExpr::Identifier(z)));
    let all = SExpr::Binary(Box::new(SExpr::Identifier(x)), "or"@, Box::new(yz));
    let f1 = (f - 1) as nat;
    let f2 = (f - 2) as nat;
    let f3 = (f - 3) as nat;
    let f4 = (f - 4) as nat;
    let f5 = (f - 5) as nat;
    let f6 = (f - 6) as nat;
    let f7 = (f - 7) as nat;
    assert(p_prefix(f7, ts, 4) == (5int, Ok::<SExpr, super::spec::PErr>(SExpr::Identifier(z))));
    assert(p_expr_loop(f7, ts, 5, SExpr::Identifier(z), Precedence::And) == (5int, Ok::<SExpr, super::spec::PErr>(SExpr::Identifier(z))));
    assert(p_expression(f6, ts, 4, Precedence::And) == (5int, Ok::<SExpr, super::spec::PErr>(SExpr::Identifier(z))));
    assert(p_infix(f5, ts, 3, SExpr::Identifier(y)) == (5int, Ok::<SExpr, super::spec::PErr>(yz)));
    assert(p_expr_loop(f5, ts, 5, yz, Precedence::Or) == (5int, Ok::<SExpr, super::spec::PErr>(yz)));
    assert(p_expr_loop(f4, ts, 3, SExpr::Identifier(y), Precedence::Or) == (5int, Ok::<SExpr, super::spec::PErr>(yz)));
    assert(p_prefix(f3, ts, 2) == (3int, Ok::<SExpr, super::spec::PErr>(SExpr::Identifier(y))));
    assert(p_expression(f3, ts, 2, Precedence::Or) == (5int, Ok::<SExpr, super::spec::PErr>(yz)));
    assert(p_infix(f2, ts, 1, SExpr::Identifier(x)) == (5int, Ok::<SExpr, super::spec::PErr>(all)));
    assert(p_expr_loop(f2, ts, 5, all, Precedence::Lowest) == (5int, Ok::<SExpr, super::spec::PErr>(all)));
    assert(p_expr_loop(f1, ts, 1, SExpr::Identifier(x), Precedence::Lowest) == (5int, Ok::<SExpr, super::spec::PErr>(all)));
    assert(p_prefix(f1, ts, 0) == (1int, Ok::<SExpr, super::spec::PErr>(SExpr::Identifier(x))));
}

} // verus!
