pub mod ast;
pub mod error;
pub mod spec;
pub mod source;
pub mod laws;

use vstd::prelude::*;
use vstd::string::StringExecFns;
use crate::text::{concat2, concat3};
use crate::lexer::tokens_view;
use crate::lexer::token::{TokenKindG, TokenKind, Token, TokenView};
use self::error::ParserError;
use self::ast::{
    Expression, Statement, Program, SExpr, SStmt, expr_v, exprs_v, stmt_v, stmts_v, names_v,
    UnaryExpression, BinaryExpression, FunctionCallExpression, LetStatement,
    AssignmentStatement, IfStatement, WhileStatement, ForStatement, ReturnStatement,
    WriteStatement, FunctionDeclaration, lemma_exprs_v_push, lemma_stmts_v_push,
};
pub use self::spec::Precedence;
use self::spec::{
    PErr, prec_level, kind_prec, infix_op, is_binary_start, cur, kind_is, last_lc, lc_at, perr,
    perr_tok, p_expect, skip_newlines, p_expression, p_expr_loop, p_infix, p_prefix, p_elems,
    p_call, p_args, fuel, parse_expression_spec, p_block_loop, p_block, p_brace, p_name_after, p_let,
    p_assignment, p_write, p_cond_block, p_if, p_while, p_for, p_params, p_func, p_return,
    p_statement, p_expr_statement, p_program_loop, parse_program_spec, parse_statement_spec,
};


verus! {

/// Result of an expression parse, as position and view.
pub open spec fn res_e(p: usize, r: Result<Expression, ParserError>) -> (int, Result<SExpr, PErr>) {
    (
        p as int,
        match r {
            Ok(e) => Ok(expr_v(e)),
            Err(x) => Err(x@),
        },
    )
}

/// Result of a statement parse, as position and view.
pub open spec fn res_s(p: usize, r: Result<Statement, ParserError>) -> (int, Result<SStmt, PErr>) {
    (
        p as int,
        match r {
            Ok(s) => Ok(stmt_v(s)),
            Err(x) => Err(x@),
        },
    )
}

/// Result of parsing a statement list, as position and view.
pub open spec fn res_ss(p: usize, r: Result<Vec<Statement>, ParserError>) -> (int, Result<Seq<SStmt>, PErr>) {
    (
        p as int,
        match r {
            Ok(v) => Ok(stmts_v(v@)),
            Err(x) => Err(x@),
        },
    )
}

/// A recursive-descent parser over a token vector.
pub struct Parser {
    pub tokens: Vec<Token>,
    pub position: usize,
}

fn perr_exec(message: String, lc: (usize, usize)) -> (r: ParserError)
    ensures
        r@ == perr(message@, lc),
{
    ParserError { message, line: lc.0, column: lc.1 }
}

fn perr_tok_exec(message: String, t: &Token) -> (r: ParserError)
    ensures
        r@ == perr_tok(message@, t@),
{
    ParserError { message, line: t.line, column: t.column }
}

impl Parser {
    /// The tokens as views.
    pub open spec fn ts(&self) -> Seq<TokenView> {
        tokens_view(self.tokens@)
    }

    /// How a parse moves the parser: tokens unchanged, position forward,
    /// never past the end when it started within the tokens.
    pub open spec fn moved(&self, after: &Parser) -> bool {
        &&& after.tokens@ == self.tokens@
        &&& after.position >= self.position
        &&& (self.position <= self.tokens@.len() ==> after.position <= after.tokens@.len())
    }

    /// A parser at the first of `tokens`.
    pub fn new(tokens: Vec<Token>) -> (r: Parser)
        ensures
            r.tokens@ == tokens@,
            r.position == 0,
    {
        Parser { tokens, position: 0 }
    }

    /// The token under the cursor.
    pub fn current(&self) -> (r: Option<&Token>)
        ensures
            match r {
                Some(t) => self.position < self.tokens@.len() && *t == self.tokens@[self.position as int],
                None => self.position >= self.tokens@.len(),
            },
    {
        if self.position < self.tokens.len() {
            Some(&self.tokens[self.position])
        } else {
            None
        }
    }

    /// Line and column of the current token, else of the last one, else (0, 0).
    fn lc_here(&self) -> (r: (usize, usize))
        ensures
            r == lc_at(self.ts(), self.position as int),
    {
        if self.position < self.tokens.len() {
            (self.tokens[self.position].line, self.tokens[self.position].column)
        } else {
            self.last_lc_exec()
        }
    }

    fn last_lc_exec(&self) -> (r: (usize, usize))
        ensures
            r == last_lc(self.ts()),
    {
        if self.tokens.len() > 0 {
            let t = &self.tokens[self.tokens.len() - 1];
            (t.line, t.column)
        } else {
            (0, 0)
        }
    }

    /// Whether the token at `p` has kind `k`.
    fn kind_at(&self, p: usize, k: TokenKind) -> (r: bool)
        ensures
            r == kind_is(self.ts(), p as int, k@),
            r ==> p < self.tokens@.len(),
    {
        p < self.tokens.len() && self.tokens[p].kind.same_as(&k)
    }

    /// The binding strength of the current token as an infix operator.
    pub fn get_precedence(&self) -> (r: Precedence)
        ensures
            r == (match cur(self.ts(), self.position as int) {
                Some(t) => kind_prec(t.kind),
                None => Precedence::Lowest,
            }),
    {
        if self.position < self.tokens.len() {
            precedence_of(&self.tokens[self.position].kind)
        } else {
            Precedence::Lowest
        }
    }

    /// Moves past the current token if it has kind `kind`.
    pub fn match_token(&mut self, kind: &TokenKind) -> (r: bool)
        ensures
            final(self).tokens@ == old(self).tokens@,
            r == kind_is(old(self).ts(), old(self).position as int, kind@),
            final(self).position == if r { old(self).position + 1 } else { old(self).position as int },
    {
        if self.position < self.tokens.len() && self.tokens[self.position].kind.same_as(kind) {
            self.step_over();
            true
        } else {
            false
        }
    }

    /// Consumes a token of kind `kind`, or fails with `Expected <kind>` at
    /// the current token (else the last token, else (0, 0)).
    pub fn expect(&mut self, kind: TokenKind) -> (r: Result<&Token, ParserError>)
        ensures
            final(self).tokens@ == old(self).tokens@,
            (final(self).position as int, match r {
                Ok(t) => Ok(t@),
                Err(e) => Err(e@),
            }) == p_expect(old(self).ts(), old(self).position as int, kind@),
    {
        if self.match_token(&kind) {
            return Ok(&self.tokens[self.position - 1]);
        }
        let lc = self.lc_here();
        let msg = concat2("Expected ", kind.debug_text().as_str());
        Err(perr_exec(msg, lc))
    }

    /// An expression: a prefix, then infix operators binding tighter than `precedence`.
    pub fn parse_expression(&mut self, precedence: Precedence) -> (r: Result<Expression, ParserError>)
        ensures
            old(self).moved(final(self)),
            res_e(final(self).position, r) == parse_expression_spec(
                old(self).ts(),
                old(self).position as int,
                precedence,
            ),
    {
        self.expression_f(Ghost(fuel(self.ts(), self.position as int, 5)), precedence)
    }

    fn expression_f(&mut self, Ghost(f): Ghost<nat>, prec: Precedence) -> (r: Result<Expression, ParserError>)
        requires
            f >= fuel(old(self).ts(), old(self).position as int, 5),
        ensures
            old(self).moved(final(self)),
            res_e(final(self).position, r) == p_expression(f, old(self).ts(), old(self).position as int, prec),
            r is Ok ==> final(self).position > old(self).position,
        decreases f, 1nat,
    {
        let left = match self.prefix_f(Ghost((f - 1) as nat)) {
            Ok(e) => e,
            Err(e) => return Err(e),
        };
        self.expr_loop_f(Ghost((f - 1) as nat), left, prec)
    }

    fn expr_loop_f(&mut self, Ghost(f): Ghost<nat>, left: Expression, prec: Precedence) -> (r: Result<Expression, ParserError>)
        requires
            f >= fuel(old(self).ts(), old(self).position as int, 5),
        ensures
            old(self).moved(final(self)),
            res_e(final(self).position, r) == p_expr_loop(f, old(self).ts(), old(self).position as int, expr_v(left), prec),
        decreases f, 0nat,
    {
        let ghost ts = self.ts();
        let ghost p0 = self.position as int;
        let ghost old_self = *self;
        let mut acc = left;
        let mut g: Ghost<nat> = Ghost(f);
        loop
            invariant
                self.ts() == ts,
                old_self == *old(self),
                old_self.moved(self),
                old_self.ts() == ts,
                old_self.position == p0,
                g@ >= fuel(ts, self.position as int, 5),
                g@ <= f,
                p_expr_loop(g@, ts, self.position as int, expr_v(acc), prec) == p_expr_loop(f, ts, p0, expr_v(left), prec),
            decreases g@,
        {
            if self.position >= self.tokens.len() {
                return Ok(acc);
            }
            let k = &self.tokens[self.position].kind;
            if k.same_as(&TokenKindG::Newline) || k.same_as(&TokenKindG::Dedent) || k.same_as(&TokenKindG::Eof) || k.same_as(&TokenKindG::Colon) {
                return Ok(acc);
            }
            let next = precedence_of(k);
            if level(next) <= level(prec) {
                return Ok(acc);
            }
            let ghost before = self.position;
            acc = match self.infix_f(Ghost((g@ - 1) as nat), acc) {
                Ok(e) => e,
                Err(e) => return Err(e),
            };
            g = Ghost((g@ - 1) as nat);
        }
    }
}

/// Precedence of a kind.
fn precedence_of(k: &TokenKind) -> (r: Precedence)
    ensures
        r == kind_prec(k@),
{
    match k {
        TokenKindG::Or => Precedence::Or,
        TokenKindG::And => Precedence::And,
        TokenKindG::Equal | TokenKindG::NotEqual => Precedence::Equality,
        TokenKindG::LessThan | TokenKindG::GreaterThan | TokenKindG::LessEqual
        | TokenKindG::GreaterEqual => Precedence::Comparison,
        TokenKindG::Plus | TokenKindG::Minus => Precedence::Term,
        TokenKindG::Multiply | TokenKindG::Divide | TokenKindG::Modulo => Precedence::Factor,
        TokenKindG::Power => Precedence::Power,
        _ => Precedence::Lowest,
    }
}

fn level(p: Precedence) -> (r: u8)
    ensures
        r as nat == prec_level(p),
{
    match p {
        Precedence::Lowest => 0,
        Precedence::Or => 1,
        Precedence::And => 2,
        Precedence::Equality => 3,
        Precedence::Comparison => 4,
        Precedence::Term => 5,
        Precedence::Factor => 6,
        Precedence::Power => 7,
        Precedence::Unary => 8,
        Precedence::Primary => 9,
    }
}


impl Parser {
    fn infix_f(&mut self, Ghost(f): Ghost<nat>, left: Expression) -> (r: Result<Expression, ParserError>)
        requires
            f >= fuel(old(self).ts(), old(self).position as int, 4),
        ensures
            old(self).moved(final(self)),
            res_e(final(self).position, r) == p_infix(f, old(self).ts(), old(self).position as int, expr_v(left)),
            r is Ok ==> final(self).position > old(self).position,
        decreases f, 1nat,
    {
        if self.position >= self.tokens.len() {
            let lc = self.last_lc_exec();
            return Err(perr_exec(String::from_str("Unexpected EOF during infix parsing"), lc));
        }
        let operator = match infix_op_exec(&self.tokens[self.position].kind) {
            Some(op) => op,
            None => {
                let t = &self.tokens[self.position];
                let msg = concat2("Unexpected infix operator: ", t.kind.debug_text().as_str());
                return Err(perr_tok_exec(msg, t));
            },
        };
        let precedence = precedence_of(&self.tokens[self.position].kind);
        self.step_over();
        if self.position < self.tokens.len() && is_binary_start_exec(&self.tokens[self.position].kind) {
            return Err(
                perr_tok_exec(
                    String::from_str("Double operator detected: missing expression between operators"),
                    &self.tokens[self.position],
                ),
            );
        }
        let right = match self.expression_f(Ghost((f - 1) as nat), precedence) {
            Ok(e) => e,
            Err(e) => return Err(e),
        };
        Ok(Expression::Binary(BinaryExpression { left: Box::new(left), operator, right: Box::new(right) }))
    }

    fn prefix_f(&mut self, Ghost(f): Ghost<nat>) -> (r: Result<Expression, ParserError>)
        requires
            f >= fuel(old(self).ts(), old(self).position as int, 4),
        ensures
            old(self).moved(final(self)),
            res_e(final(self).position, r) == p_prefix(f, old(self).ts(), old(self).position as int),
            r is Ok ==> final(self).position > old(self).position,
        decreases f, 1nat,
    {
        if self.position >= self.tokens.len() {
            let lc = self.last_lc_exec();
            return Err(perr_exec(String::from_str("Unexpected EOF while parsing expression"), lc));
        }
        let p = self.position;
        match &self.tokens[p].kind {
            TokenKindG::Identifier(name) => {
                let name = name.clone();
                self.position = p + 1;
                if self.kind_at(p + 1, TokenKindG::LParen) {
                    return self.call_f(Ghost((f - 1) as nat), name);
                }
                Ok(Expression::Identifier(name))
            },
            TokenKindG::Number(v) => {
                let v = *v;
                self.position = p + 1;
                Ok(Expression::Integer(v))
            },
            TokenKindG::String(s) => {
                let s = s.clone();
                self.position = p + 1;
                Ok(Expression::String(s))
            },
            TokenKindG::True => {
                self.position = p + 1;
                Ok(Expression::Boolean(true))
            },
            TokenKindG::False => {
                self.position = p + 1;
                Ok(Expression::Boolean(false))
            },
            TokenKindG::Nil => {
                self.position = p + 1;
                Ok(Expression::Nil)
            },
            TokenKindG::LParen => {
                self.position = p + 1;
                let e = match self.expression_f(Ghost((f - 1) as nat), Precedence::Lowest) {
                    Ok(e) => e,
                    Err(e) => return Err(e),
                };
                if self.position < self.tokens.len() {
                    if self.tokens[self.position].kind.same_as(&TokenKindG::RParen) {
                        self.step_over();
                        Ok(e)
                    } else {
                        let t = &self.tokens[self.position];
                        let msg = concat2("Expected ')', found ", t.kind.debug_text().as_str());
                        Err(perr_tok_exec(msg, t))
                    }
                } else {
                    let lc = self.last_lc_exec();
                    Err(perr_exec(String::from_str("Expected ')', found EOF"), lc))
                }
            },
            TokenKindG::LBracket => {
                self.position = p + 1;
                if self.kind_at(p + 1, TokenKindG::RBracket) {
                    self.position = p + 2;
                    let elements: Vec<Expression> = Vec::new();
                    assert(exprs_v(elements@) =~= seq![]);
                    return Ok(Expression::Array(elements));
                }
                self.elems_f(Ghost((f - 1) as nat))
            },
            TokenKindG::Minus | TokenKindG::Not => {
                let operator = if self.tokens[p].kind.same_as(&TokenKindG::Minus) {
                    String::from_str("-")
                } else {
                    String::from_str("not")
                };
                self.position = p + 1;
                let right = match self.expression_f(Ghost((f - 1) as nat), Precedence::Unary) {
                    Ok(e) => e,
                    Err(e) => return Err(e),
                };
                Ok(Expression::Unary(UnaryExpression { operator, right: Box::new(right) }))
            },
            TokenKindG::Plus | TokenKindG::Multiply | TokenKindG::Divide | TokenKindG::Modulo
            | TokenKindG::Power => {
                Err(
                    perr_tok_exec(
                        String::from_str("Unexpected operator: missing left operand"),
                        &self.tokens[p],
                    ),
                )
            },
            _ => {
                let t = &self.tokens[p];
                let msg = concat2("Unexpected token for expression prefix: ", t.kind.debug_text().as_str());
                Err(perr_tok_exec(msg, t))
            },
        }
    }

    /// Array elements; the cursor is after `[`.
    fn elems_f(&mut self, Ghost(f): Ghost<nat>) -> (r: Result<Expression, ParserError>)
        requires
            f >= fuel(old(self).ts(), old(self).position as int, 6),
        ensures
            old(self).moved(final(self)),
            res_e(final(self).position, r) == p_elems(f, old(self).ts(), old(self).position as int, seq![]),
            r is Ok ==> final(self).position > old(self).position,
        decreases f, 0nat,
    {
        let ghost ts = self.ts();
        let ghost p0 = self.position as int;
        let ghost old_self = *self;
        let mut elements: Vec<Expression> = Vec::new();
        assert(exprs_v(elements@) =~= seq![]);
        let mut g: Ghost<nat> = Ghost(f);
        loop
            invariant
                self.ts() == ts,
                old_self == *old(self),
                old_self.moved(self),
                old_self.ts() == ts,
                old_self.position == p0,
                g@ >= fuel(ts, self.position as int, 6),
                g@ <= f,
                self.position >= p0,
                p_elems(g@, ts, self.position as int, exprs_v(elements@)) == p_elems(f, ts, p0, seq![]),
            decreases g@,
        {
            if self.position >= self.tokens.len() {
                let lc = self.last_lc_exec();
                return Err(perr_exec(String::from_str("Expected ']' or expression, found EOF"), lc));
            }
            let e = match self.expression_f(Ghost((g@ - 1) as nat), Precedence::Lowest) {
                Ok(e) => e,
                Err(e) => return Err(e),
            };
            proof {
                lemma_exprs_v_push(elements@, e);
            }
            elements.push(e);
            if self.position < self.tokens.len() {
                if self.tokens[self.position].kind.same_as(&TokenKindG::Comma) {
                    self.step_over();
                } else if self.tokens[self.position].kind.same_as(&TokenKindG::RBracket) {
                    self.step_over();
                    return Ok(Expression::Array(elements));
                } else {
                    let t = &self.tokens[self.position];
                    let msg = concat2("Expected ',' or ']', found ", t.kind.debug_text().as_str());
                    return Err(perr_tok_exec(msg, t));
                }
            } else {
                let lc = self.last_lc_exec();
                return Err(perr_exec(String::from_str("Expected ',' or ']', found EOF"), lc));
            }
            g = Ghost((g@ - 1) as nat);
        }
    }

    /// A call of `name`; the cursor is at `(`.
    fn call_f(&mut self, Ghost(f): Ghost<nat>, name: String) -> (r: Result<Expression, ParserError>)
        requires
            f >= fuel(old(self).ts(), old(self).position as int, 4),
            kind_is(old(self).ts(), old(self).position as int, TokenKindG::LParen),
        ensures
            old(self).moved(final(self)),
            res_e(final(self).position, r) == p_call(f, old(self).ts(), old(self).position as int, name@),
            r is Ok ==> final(self).position > old(self).position,
        decreases f, 1nat,
    {
        let p = self.position;
        let _n = self.tokens.len();
        assert(self.ts().len() == self.tokens@.len());
        assert(cur(self.ts(), p as int) is Some);
        self.position = p + 1;
        if self.kind_at(p + 1, TokenKindG::RParen) {
            self.position = p + 2;
            let arguments: Vec<Expression> = Vec::new();
            assert(exprs_v(arguments@) =~= seq![]);
            return Ok(Expression::FunctionCall(FunctionCallExpression { name, arguments }));
        }
        self.args_f(Ghost((f - 1) as nat), name)
    }

    /// Call arguments; the cursor is at the first one.
    fn args_f(&mut self, Ghost(f): Ghost<nat>, name: String) -> (r: Result<Expression, ParserError>)
        requires
            f >= fuel(old(self).ts(), old(self).position as int, 6),
        ensures
            old(self).moved(final(self)),
            res_e(final(self).position, r) == p_args(f, old(self).ts(), old(self).position as int, name@, seq![]),
            r is Ok ==> final(self).position > old(self).position,
        decreases f, 0nat,
    {
        let ghost ts = self.ts();
        let ghost p0 = self.position as int;
        let ghost old_self = *self;
        let mut arguments: Vec<Expression> = Vec::new();
        assert(exprs_v(arguments@) =~= seq![]);
        let mut g: Ghost<nat> = Ghost(f);
        loop
            invariant
                self.ts() == ts,
                old_self == *old(self),
                old_self.moved(self),
                old_self.ts() == ts,
                old_self.position == p0,
                g@ >= fuel(ts, self.position as int, 6),
                g@ <= f,
                self.position >= p0,
                p_args(g@, ts, self.position as int, name@, exprs_v(arguments@)) == p_args(f, ts, p0, name@, seq![]),
            decreases g@,
        {
            let a = match self.expression_f(Ghost((g@ - 1) as nat), Precedence::Lowest) {
                Ok(e) => e,
                Err(e) => return Err(e),
            };
            proof {
                lemma_exprs_v_push(arguments@, a);
            }
            arguments.push(a);
            if self.position < self.tokens.len() {
                if self.tokens[self.position].kind.same_as(&TokenKindG::Comma) {
                    self.step_over();
                    if self.kind_at(self.position, TokenKindG::RParen) {
                        self.step_over();
                        return Ok(Expression::FunctionCall(FunctionCallExpression { name, arguments }));
                    }
                } else if self.tokens[self.position].kind.same_as(&TokenKindG::RParen) {
                    self.step_over();
                    return Ok(Expression::FunctionCall(FunctionCallExpression { name, arguments }));
                } else {
                    let t = &self.tokens[self.position];
                    let msg = concat2("Expected ',' or ')' in argument list, found ", t.kind.debug_text().as_str());
                    return Err(perr_tok_exec(msg, t));
                }
            } else {
                let lc = self.last_lc_exec();
                return Err(perr_exec(String::from_str("Expected ',' or ')' in argument list, found EOF"), lc));
            }
            g = Ghost((g@ - 1) as nat);
        }
    }
}

/// Operator text of an infix token.
fn infix_op_exec(k: &TokenKind) -> (r: Option<String>)
    ensures
        match r {
            Some(s) => infix_op(k@) == Some(s@),
            None => infix_op(k@) is None,
        },
{
    match k {
        TokenKindG::Plus => Some(String::from_str("+")),
        TokenKindG::Minus => Some(String::from_str("-")),
        TokenKindG::Multiply => Some(String::from_str("*")),
        TokenKindG::Divide => Some(String::from_str("/")),
        TokenKindG::Modulo => Some(String::from_str("%")),
        TokenKindG::Power => Some(String::from_str("**")),
        TokenKindG::Equal => Some(String::from_str("==")),
        TokenKindG::NotEqual => Some(String::from_str("!=")),
        TokenKindG::LessThan => Some(String::from_str("<")),
        TokenKindG::GreaterThan => Some(String::from_str(">")),
        TokenKindG::LessEqual => Some(String::from_str("<=")),
        TokenKindG::GreaterEqual => Some(String::from_str(">=")),
        TokenKindG::And => Some(String::from_str("and")),
        TokenKindG::Or => Some(String::from_str("or")),
        _ => None,
    }
}

fn is_binary_start_exec(k: &TokenKind) -> (r: bool)
    ensures
        r == is_binary_start(k@),
{
    match k {
        TokenKindG::Plus | TokenKindG::Multiply | TokenKindG::Divide | TokenKindG::Modulo
        | TokenKindG::Power | TokenKindG::Equal | TokenKindG::NotEqual | TokenKindG::LessThan
        | TokenKindG::GreaterThan | TokenKindG::LessEqual | TokenKindG::GreaterEqual
        | TokenKindG::And | TokenKindG::Or => true,
        _ => false,
    }
}


impl Parser {
    /// Moves the cursor one token forward.
    fn step_over(&mut self)
        requires
            old(self).position < old(self).tokens@.len(),
        ensures
            final(self).tokens@ == old(self).tokens@,
            final(self).position == old(self).position + 1,
    {
        let _n = self.tokens.len();
        self.position = self.position + 1;
    }

    /// Moves past the current token, returning it.
    pub fn advance(&mut self) -> (r: Option<&Token>)
        ensures
            final(self).tokens@ == old(self).tokens@,
            match r {
                Some(t) => old(self).position < old(self).tokens@.len() && *t == old(self).tokens@[old(self).position as int]
                    && final(self).position == old(self).position + 1,
                None => old(self).position >= old(self).tokens@.len() && final(self).position == old(self).position,
            },
    {
        if self.position < self.tokens.len() {
            self.step_over();
            Some(&self.tokens[self.position - 1])
        } else {
            None
        }
    }

    /// The statements of an indented block, with the position where the
    /// block was expected for errors at the end of input.
    fn block_f(&mut self, Ghost(f): Ghost<nat>) -> (r: Result<Vec<Statement>, ParserError>)
        requires
            f >= fuel(old(self).ts(), old(self).position as int, 8),
        ensures
            old(self).moved(final(self)),
            res_ss(final(self).position, r) == p_block(f, old(self).ts(), old(self).position as int),
            r is Ok ==> final(self).position > old(self).position,
        decreases f, 1nat,
    {
        let ghost ts = self.ts();
        let lc = self.lc_here();
        while self.position < self.tokens.len() && self.tokens[self.position].kind.same_as(&TokenKindG::Newline)
            invariant
                self.tokens@ == old(self).tokens@,
                self.position >= old(self).position,
                old(self).position <= old(self).tokens@.len() ==> self.position <= self.tokens@.len(),
                skip_newlines(ts, self.position as int) == skip_newlines(ts, old(self).position as int),
                ts == old(self).ts(),
            decreases self.tokens@.len() - self.position,
        {
            self.step_over();
        }
        if self.position >= self.tokens.len() {
            return Err(perr_exec(String::from_str("Expected indented block, found EOF"), lc));
        }
        if !self.tokens[self.position].kind.same_as(&TokenKindG::Indent) {
            let t = &self.tokens[self.position];
            let msg = concat2("Expected indented block, found ", t.kind.debug_text().as_str());
            return Err(perr_tok_exec(msg, t));
        }
        self.step_over();
        self.block_loop_f(Ghost((f - 1) as nat), lc)
    }

    fn block_loop_f(&mut self, Ghost(f): Ghost<nat>, lc: (usize, usize)) -> (r: Result<Vec<Statement>, ParserError>)
        requires
            f >= fuel(old(self).ts(), old(self).position as int, 8),
        ensures
            old(self).moved(final(self)),
            res_ss(final(self).position, r) == p_block_loop(f, old(self).ts(), old(self).position as int, old(self).position as int, seq![], lc),
            r is Ok ==> final(self).position > old(self).position,
        decreases f, 0nat,
    {
        let ghost ts = self.ts();
        let ghost p0 = self.position as int;
        let ghost old_self = *self;
        let mut statements: Vec<Statement> = Vec::new();
        assert(stmts_v(statements@) =~= seq![]);
        let mut last = self.position;
        let mut g: Ghost<nat> = Ghost(f);
        loop
            invariant
                old_self == *old(self),
                self.ts() == ts,
                old_self.moved(self),
                old_self.ts() == ts,
                old_self.position == p0,
                g@ >= fuel(ts, self.position as int, 8),
                g@ <= f,
                last == self.position,
                p_block_loop(g@, ts, self.position as int, last as int, stmts_v(statements@), lc) == p_block_loop(f, ts, p0, p0, seq![], lc),
            decreases g@,
        {
            if self.position >= self.tokens.len() {
                return Err(perr_exec(String::from_str("Expected end of block (DEDENT), found EOF"), lc));
            }
            let p = self.position;
            if self.tokens[p].kind.same_as(&TokenKindG::Dedent) {
                self.position = p + 1;
                return Ok(statements);
            }
            if self.tokens[p].kind.same_as(&TokenKindG::Eof) {
                return Err(
                    perr_tok_exec(String::from_str("Expected end of block (DEDENT), found EOF"), &self.tokens[p]),
                );
            }
            if self.tokens[p].kind.same_as(&TokenKindG::Newline) {
                self.position = p + 1;
                last = self.position;
            } else {
                let s = match self.statement_f(Ghost((g@ - 1) as nat)) {
                    Ok(s) => s,
                    Err(e) => return Err(e),
                };
                if self.position == last {
                    return Err(perr_tok_exec(String::from_str("Parser stuck in block"), &self.tokens[p]));
                }
                last = self.position;
                proof {
                    lemma_stmts_v_push(statements@, s);
                }
                statements.push(s);
            }
            g = Ghost((g@ - 1) as nat);
        }
    }

    /// The identifier after a keyword; `what` names it in the error.
    fn name_after(&mut self, what: &str, lc: (usize, usize)) -> (r: Result<String, ParserError>)
        ensures
            old(self).moved(final(self)),
            (final(self).position as int, match r {
                Ok(n) => Ok(n@),
                Err(e) => Err(e@),
            }) == p_name_after(old(self).ts(), old(self).position as int, what@, lc),
    {
        if self.position < self.tokens.len() {
            match &self.tokens[self.position].kind {
                TokenKindG::Identifier(n) => {
                    let n = n.clone();
                    self.step_over();
                    Ok(n)
                },
                _ => {
                    let t = &self.tokens[self.position];
                    let msg = concat3("Expected ", what, ", found ");
                    let msg = concat2(msg.as_str(), t.kind.debug_text().as_str());
                    Err(perr_tok_exec(msg, t))
                },
            }
        } else {
            let msg = concat3("Expected ", what, ", found EOF");
            Err(perr_exec(msg, lc))
        }
    }

    fn expect_here(&mut self, kind: TokenKind) -> (r: Result<(), ParserError>)
        ensures
            old(self).moved(final(self)),
            (final(self).position as int, match r {
                Ok(_) => Ok(old(self).ts()[old(self).position as int]),
                Err(e) => Err(e@),
            }) == p_expect(old(self).ts(), old(self).position as int, kind@),
    {
        if self.kind_at(self.position, kind.copy()) {
            self.step_over();
            return Ok(());
        }
        let lc = self.lc_here();
        let msg = concat2("Expected ", kind.debug_text().as_str());
        Err(perr_exec(msg, lc))
    }

    fn let_f(&mut self, Ghost(f): Ghost<nat>) -> (r: Result<Statement, ParserError>)
        requires
            f >= fuel(old(self).ts(), old(self).position as int, 6),
            old(self).position < old(self).tokens@.len(),
        ensures
            old(self).moved(final(self)),
            res_s(final(self).position, r) == p_let(f, old(self).ts(), old(self).position as int),
            r is Ok ==> final(self).position > old(self).position,
        decreases f, 1nat,
    {
        let lc = self.lc_here();
        self.step_over();
        let name = match self.name_after("identifier after 'let'", lc) {
            Ok(n) => n,
            Err(e) => return Err(e),
        };
        match self.expect_here(TokenKindG::Assign) {
            Ok(_) => {},
            Err(e) => return Err(e),
        }
        let value = match self.expression_f(Ghost((f - 1) as nat), Precedence::Lowest) {
            Ok(v) => v,
            Err(e) => return Err(e),
        };
        Ok(Statement::Let(LetStatement { name, value }))
    }

    fn assignment_f(&mut self, Ghost(f): Ghost<nat>) -> (r: Result<Statement, ParserError>)
        requires
            f >= fuel(old(self).ts(), old(self).position as int, 6),
            old(self).position + 1 < old(self).tokens@.len(),
        ensures
            old(self).moved(final(self)),
            res_s(final(self).position, r) == p_assignment(f, old(self).ts(), old(self).position as int),
            r is Ok ==> final(self).position > old(self).position,
        decreases f, 1nat,
    {
        let p = self.position;
        let _n = self.tokens.len();
        let name = match &self.tokens[p].kind {
            TokenKindG::Identifier(n) => n.clone(),
            _ => {
                let t = &self.tokens[p];
                let msg = concat2("Expected identifier for assignment, found ", t.kind.debug_text().as_str());
                return Err(perr_tok_exec(msg, t));
            },
        };
        self.position = p + 2;
        let value = match self.expression_f(Ghost((f - 1) as nat), Precedence::Lowest) {
            Ok(v) => v,
            Err(e) => return Err(e),
        };
        Ok(Statement::Assignment(AssignmentStatement { name, value }))
    }

    fn write_f(&mut self, Ghost(f): Ghost<nat>) -> (r: Result<Statement, ParserError>)
        requires
            f >= fuel(old(self).ts(), old(self).position as int, 6),
            old(self).position < old(self).tokens@.len(),
        ensures
            old(self).moved(final(self)),
            res_s(final(self).position, r) == p_write(f, old(self).ts(), old(self).position as int),
            r is Ok ==> final(self).position > old(self).position,
        decreases f, 1nat,
    {
        self.step_over();
        let value = match self.expression_f(Ghost((f - 1) as nat), Precedence::Lowest) {
            Ok(v) => v,
            Err(e) => return Err(e),
        };
        Ok(Statement::Write(WriteStatement { value }))
    }

    fn cond_block_f(&mut self, Ghost(f): Ghost<nat>) -> (r: Result<(Expression, Vec<Statement>), ParserError>)
        requires
            f >= fuel(old(self).ts(), old(self).position as int, 6),
        ensures
            old(self).moved(final(self)),
            (final(self).position as int, match r {
                Ok((c, b)) => Ok((expr_v(c), stmts_v(b@))),
                Err(e) => Err(e@),
            }) == p_cond_block(f, old(self).ts(), old(self).position as int),
            r is Ok ==> final(self).position > old(self).position,
        decreases f, 1nat,
    {
        let c = match self.expression_f(Ghost((f - 1) as nat), Precedence::Lowest) {
            Ok(v) => v,
            Err(e) => return Err(e),
        };
        match self.expect_here(TokenKindG::Colon) {
            Ok(_) => {},
            Err(e) => return Err(e),
        }
        let b = match self.block_f(Ghost((f - 1) as nat)) {
            Ok(b) => b,
            Err(e) => return Err(e),
        };
        Ok((c, b))
    }

    fn if_f(&mut self, Ghost(f): Ghost<nat>) -> (r: Result<Statement, ParserError>)
        requires
            f >= fuel(old(self).ts(), old(self).position as int, 6),
            old(self).position < old(self).tokens@.len(),
        ensures
            old(self).moved(final(self)),
            res_s(final(self).position, r) == p_if(f, old(self).ts(), old(self).position as int),
            r is Ok ==> final(self).position > old(self).position,
        decreases f, 1nat,
    {
        self.step_over();
        let (condition, consequence) = match self.cond_block_f(Ghost((f - 1) as nat)) {
            Ok(x) => x,
            Err(e) => return Err(e),
        };
        let mut alternative: Option<Vec<Statement>> = None;
        if self.kind_at(self.position, TokenKindG::Else) {
            self.step_over();
            match self.expect_here(TokenKindG::Colon) {
                Ok(_) => {},
                Err(e) => return Err(e),
            }
            let alt = match self.block_f(Ghost((f - 1) as nat)) {
                Ok(b) => b,
                Err(e) => return Err(e),
            };
            alternative = Some(alt);
        }
        Ok(Statement::If(IfStatement { condition, consequence, alternative }))
    }

    fn while_f(&mut self, Ghost(f): Ghost<nat>) -> (r: Result<Statement, ParserError>)
        requires
            f >= fuel(old(self).ts(), old(self).position as int, 6),
            old(self).position < old(self).tokens@.len(),
        ensures
            old(self).moved(final(self)),
            res_s(final(self).position, r) == p_while(f, old(self).ts(), old(self).position as int),
            r is Ok ==> final(self).position > old(self).position,
        decreases f, 1nat,
    {
        self.step_over();
        let (condition, body) = match self.cond_block_f(Ghost((f - 1) as nat)) {
            Ok(x) => x,
            Err(e) => return Err(e),
        };
        Ok(Statement::While(WhileStatement { condition, body }))
    }

    fn for_f(&mut self, Ghost(f): Ghost<nat>) -> (r: Result<Statement, ParserError>)
        requires
            f >= fuel(old(self).ts(), old(self).position as int, 6),
            old(self).position < old(self).tokens@.len(),
        ensures
            old(self).moved(final(self)),
            res_s(final(self).position, r) == p_for(f, old(self).ts(), old(self).position as int),
            r is Ok ==> final(self).position > old(self).position,
        decreases f, 1nat,
    {
        let lc = self.lc_here();
        self.step_over();
        let item = match self.name_after("identifier after 'for'", lc) {
            Ok(n) => n,
            Err(e) => return Err(e),
        };
        match self.expect_here(TokenKindG::In) {
            Ok(_) => {},
            Err(e) => return Err(e),
        }
        let (list, body) = match self.cond_block_f(Ghost((f - 1) as nat)) {
            Ok(x) => x,
            Err(e) => return Err(e),
        };
        Ok(Statement::For(ForStatement { item, list, body }))
    }

    fn return_f(&mut self, Ghost(f): Ghost<nat>) -> (r: Result<Statement, ParserError>)
        requires
            f >= fuel(old(self).ts(), old(self).position as int, 6),
            old(self).position < old(self).tokens@.len(),
        ensures
            old(self).moved(final(self)),
            res_s(final(self).position, r) == p_return(f, old(self).ts(), old(self).position as int),
            r is Ok ==> final(self).position > old(self).position,
        decreases f, 1nat,
    {
        self.step_over();
        let p = self.position;
        if p >= self.tokens.len() || self.tokens[p].kind.same_as(&TokenKindG::Newline)
            || self.tokens[p].kind.same_as(&TokenKindG::Dedent) || self.tokens[p].kind.same_as(&TokenKindG::Eof) {
            return Ok(Statement::Return(ReturnStatement { value: None }));
        }
        let v = match self.expression_f(Ghost((f - 1) as nat), Precedence::Lowest) {
            Ok(v) => v,
            Err(e) => return Err(e),
        };
        Ok(Statement::Return(ReturnStatement { value: Some(v) }))
    }

    fn expr_statement_f(&mut self, Ghost(f): Ghost<nat>) -> (r: Result<Statement, ParserError>)
        requires
            f >= fuel(old(self).ts(), old(self).position as int, 6),
        ensures
            old(self).moved(final(self)),
            res_s(final(self).position, r) == p_expr_statement(f, old(self).ts(), old(self).position as int),
            r is Ok ==> final(self).position > old(self).position,
        decreases f, 1nat,
    {
        let v = match self.expression_f(Ghost((f - 1) as nat), Precedence::Lowest) {
            Ok(v) => v,
            Err(e) => return Err(e),
        };
        Ok(Statement::Expression(v))
    }
}



impl Parser {
    /// Parameter names; the cursor is at the first one, `lc` is the
    /// position of `function`.
    fn params_exec(&mut self, lc: (usize, usize)) -> (r: Result<Vec<String>, ParserError>)
        ensures
            old(self).moved(final(self)),
            (final(self).position as int, match r {
                Ok(ps) => Ok(names_v(ps@)),
                Err(e) => Err(e@),
            }) == p_params(old(self).ts(), old(self).position as int, seq![], lc),
    {
        let ghost ts = self.ts();
        let ghost p0 = self.position as int;
        let mut params: Vec<String> = Vec::new();
        assert(names_v(params@) =~= seq![]);
        loop
            invariant
                self.tokens@ == old(self).tokens@,
                ts == old(self).ts(),
                p0 == old(self).position,
                self.position >= old(self).position,
                old(self).position <= old(self).tokens@.len() ==> self.position <= self.tokens@.len(),
                p_params(ts, self.position as int, names_v(params@), lc) == p_params(ts, p0, seq![], lc),
            decreases self.tokens@.len() - self.position,
        {
            if self.position >= self.tokens.len() {
                return Err(perr_exec(String::from_str("Expected parameter name or ')', found EOF"), lc));
            }
            let p = self.position;
            match &self.tokens[p].kind {
                TokenKindG::Identifier(n) => {
                    let param_name = n.clone();
                    let kw = TokenKindG::Identifier(n.clone());
                    if kw.is_keyword() {
                        let msg = concat3("Parameter name '", param_name.as_str(), "' is a reserved keyword");
                        return Err(perr_tok_exec(msg, &self.tokens[p]));
                    }
                    let ghost before = names_v(params@);
                    params.push(param_name);
                    assert(names_v(params@) =~= before.push(n@));
                },
                TokenKindG::Comma => {
                    return Err(
                        perr_tok_exec(
                            String::from_str("Unexpected comma: expected parameter name before comma"),
                            &self.tokens[p],
                        ),
                    );
                },
                _ => {
                    let t = &self.tokens[p];
                    let msg = concat2("Expected parameter name, found ", t.kind.debug_text().as_str());
                    return Err(perr_tok_exec(msg, t));
                },
            }
            self.position = p + 1;
            if p + 1 >= self.tokens.len() {
                return Err(perr_exec(String::from_str("Expected ',' or ')' in parameter list, found EOF"), lc));
            }
            if self.tokens[p + 1].kind.same_as(&TokenKindG::Comma) {
                self.position = p + 2;
                if p + 2 >= self.tokens.len() {
                    return Err(perr_exec(String::from_str("Expected parameter name after comma, found EOF"), lc));
                }
                if self.tokens[p + 2].kind.same_as(&TokenKindG::RParen) {
                    return Ok(params);
                }
                if self.tokens[p + 2].kind.same_as(&TokenKindG::Comma) {
                    return Err(
                        perr_tok_exec(
                            String::from_str("Unexpected double comma in parameter list"),
                            &self.tokens[p + 2],
                        ),
                    );
                }
            } else if self.tokens[p + 1].kind.same_as(&TokenKindG::RParen) {
                return Ok(params);
            } else {
                let t = &self.tokens[p + 1];
                let msg = concat2("Expected ',' or ')' in parameter list, found ", t.kind.debug_text().as_str());
                return Err(perr_tok_exec(msg, t));
            }
        }
    }

    fn func_f(&mut self, Ghost(f): Ghost<nat>) -> (r: Result<Statement, ParserError>)
        requires
            f >= fuel(old(self).ts(), old(self).position as int, 6),
            old(self).position < old(self).tokens@.len(),
        ensures
            old(self).moved(final(self)),
            res_s(final(self).position, r) == p_func(f, old(self).ts(), old(self).position as int),
            r is Ok ==> final(self).position > old(self).position,
        decreases f, 1nat,
    {
        let lc = self.lc_here();
        self.step_over();
        let name = match self.name_after("function name after 'function'", lc) {
            Ok(n) => n,
            Err(e) => return Err(e),
        };
        let kw = TokenKindG::Identifier(name.clone());
        if kw.is_keyword() {
            let msg = concat3("Function name '", name.as_str(), "' is a reserved keyword");
            return Err(perr_exec(msg, lc));
        }
        match self.expect_here(TokenKindG::LParen) {
            Ok(_) => {},
            Err(e) => return Err(e),
        }
        let mut params: Vec<String> = Vec::new();
        assert(names_v(params@) =~= seq![]);
        if self.position < self.tokens.len() && !self.tokens[self.position].kind.same_as(&TokenKindG::RParen) {
            params = match self.params_exec(lc) {
                Ok(ps) => ps,
                Err(e) => return Err(e),
            };
        }
        match self.expect_here(TokenKindG::RParen) {
            Ok(_) => {},
            Err(e) => return Err(e),
        }
        match self.expect_here(TokenKindG::Colon) {
            Ok(_) => {},
            Err(e) => return Err(e),
        }
        let body = match self.block_f(Ghost((f - 1) as nat)) {
            Ok(b) => b,
            Err(e) => return Err(e),
        };
        Ok(Statement::FunctionDeclaration(FunctionDeclaration { name, params, body }))
    }

    fn brace_f(&mut self, Ghost(f): Ghost<nat>) -> (r: Result<Statement, ParserError>)
        requires
            f >= fuel(old(self).ts(), old(self).position as int, 6),
            old(self).position < old(self).tokens@.len(),
        ensures
            old(self).moved(final(self)),
            res_s(final(self).position, r) == p_brace(f, old(self).ts(), old(self).position as int),
            r is Ok ==> final(self).position > old(self).position,
        decreases f, 1nat,
    {
        let ghost ts = self.ts();
        let p0 = self.position;
        self.step_over();
        let mut q = self.position;
        while q < self.tokens.len() && self.tokens[q].kind.same_as(&TokenKindG::Newline)
            invariant
                self.tokens@ == old(self).tokens@,
                ts == old(self).ts(),
                self.ts() == ts,
                self.position == p0 + 1,
                p0 + 1 <= q <= self.tokens@.len(),
                skip_newlines(ts, q as int) == skip_newlines(ts, p0 + 1),
            decreases self.tokens@.len() - q,
        {
            q = q + 1;
        }
        if self.kind_at(q, TokenKindG::RBrace) {
            self.position = q + 1;
            let empty: Vec<Statement> = Vec::new();
            proof {
                self::ast::lemma_stmts_v_len(empty@);
                assert(stmts_v(empty@) =~= seq![]);
            }
            return Ok(Statement::Block(empty));
        }
        let body = match self.block_f(Ghost((f - 1) as nat)) {
            Ok(b) => b,
            Err(e) => return Err(e),
        };
        match self.expect_here(TokenKindG::RBrace) {
            Ok(_) => {},
            Err(e) => return Err(e),
        }
        Ok(Statement::Block(body))
    }

    fn statement_f(&mut self, Ghost(f): Ghost<nat>) -> (r: Result<Statement, ParserError>)
        requires
            f >= fuel(old(self).ts(), old(self).position as int, 7),
        ensures
            old(self).moved(final(self)),
            res_s(final(self).position, r) == p_statement(f, old(self).ts(), old(self).position as int),
            r is Ok ==> final(self).position > old(self).position,
        decreases f, 2nat,
    {
        if self.position >= self.tokens.len() {
            let lc = self.last_lc_exec();
            return Err(perr_exec(String::from_str("Unexpected EOF while parsing statement"), lc));
        }
        let p = self.position;
        let g = Ghost((f - 1) as nat);
        match &self.tokens[p].kind {
            TokenKindG::Let => self.let_f(g),
            TokenKindG::Write => self.write_f(g),
            TokenKindG::If => self.if_f(g),
            TokenKindG::While => self.while_f(g),
            TokenKindG::For => self.for_f(g),
            TokenKindG::Func => self.func_f(g),
            TokenKindG::Return => self.return_f(g),
            TokenKindG::LBrace => self.brace_f(g),
            TokenKindG::Else => Err(
                perr_tok_exec(String::from_str("else without matching if"), &self.tokens[p]),
            ),
            TokenKindG::Identifier(_) => {
                if self.kind_at(p + 1, TokenKindG::Assign) {
                    self.assignment_f(g)
                } else {
                    self.expr_statement_f(g)
                }
            },
            TokenKindG::Number(_) | TokenKindG::String(_) | TokenKindG::True | TokenKindG::False
            | TokenKindG::Nil | TokenKindG::LParen | TokenKindG::LBracket | TokenKindG::Minus | TokenKindG::Not => {
                self.expr_statement_f(g)
            },
            _ => Err(
                perr_tok_exec(
                    String::from_str("Unexpected token: does not start a valid statement"),
                    &self.tokens[p],
                ),
            ),
        }
    }

    /// One statement at the cursor.
    pub fn parse_statement(&mut self) -> (r: Result<Statement, ParserError>)
        ensures
            old(self).moved(final(self)),
            res_s(final(self).position, r) == parse_statement_spec(old(self).ts(), old(self).position as int),
    {
        self.statement_f(Ghost(fuel(self.ts(), self.position as int, 7)))
    }

    /// All statements up to `Eof`, skipping blank lines.
    pub fn parse_program(&mut self) -> (r: Result<Program, ParserError>)
        ensures
            old(self).moved(final(self)),
            res_ss(final(self).position, match r {
                Ok(p) => Ok(p.statements),
                Err(e) => Err(e),
            }) == parse_program_spec(old(self).ts(), old(self).position as int),
    {
        let ghost ts = self.ts();
        let ghost p0 = self.position as int;
        let ghost f = fuel(ts, p0, 8);
        let mut statements: Vec<Statement> = Vec::new();
        assert(stmts_v(statements@) =~= seq![]);
        let mut last = self.position;
        let mut g: Ghost<nat> = Ghost(f);
        loop
            invariant
                self.tokens@ == old(self).tokens@,
                ts == old(self).ts(),
                p0 == old(self).position,
                self.position >= old(self).position,
                old(self).position <= old(self).tokens@.len() ==> self.position <= self.tokens@.len(),
                g@ >= fuel(ts, self.position as int, 8),
                g@ <= f,
                f == fuel(ts, p0, 8),
                last <= self.position,
                p_program_loop(g@, ts, self.position as int, last as int, stmts_v(statements@)) == p_program_loop(f, ts, p0, p0, seq![]),
            decreases g@,
        {
            if self.position >= self.tokens.len() {
                return Ok(Program { statements });
            }
            let p = self.position;
            if self.tokens[p].kind.same_as(&TokenKindG::Eof) {
                return Ok(Program { statements });
            }
            if self.tokens[p].kind.same_as(&TokenKindG::Newline) {
                self.position = p + 1;
            } else {
                let s = match self.statement_f(Ghost((g@ - 1) as nat)) {
                    Ok(s) => s,
                    Err(e) => return Err(e),
                };
                if self.position == last {
                    let lc = self.lc_here();
                    return Err(perr_exec(String::from_str("Parser stuck at token - cannot make progress"), lc));
                }
                last = self.position;
                proof {
                    lemma_stmts_v_push(statements@, s);
                }
                statements.push(s);
            }
            g = Ghost((g@ - 1) as nat);
        }
    }
}


} // verus!
