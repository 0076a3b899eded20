//! The meaning of a program: a step-bounded big-step semantics over the
//! mathematical views. Every function takes a step budget `f`; a
//! computation that runs out of steps ends in the limit error.
use vstd::prelude::*;
use crate::parser::ast::{SExpr, SStmt};
use super::value::{SValue, truthy, equal_values, display};
use super::env::{Scopes, env_lookup, env_define, env_assign};
use super::error::{
    SError, serr, sctx, msg_undefined_variable, msg_undefined_function, msg_not_callable,
    msg_arity, msg_return_outside, msg_division_by_zero, msg_modulo_by_zero, msg_type_mismatch,
    msg_invalid_unary, msg_invalid_comparison, msg_not_iterable, msg_overflow,
    msg_undefined_assignment, msg_unknown_operator, msg_limit,
};

verus! {

/// The interpreter's state: scopes, how many function calls are active, and
/// the lines written so far.
pub struct IState {
    pub scopes: Scopes,
    pub depth: nat,
    pub out: Seq<Seq<char>>,
}

/// How a statement ended: normally, or by `return` with an optional value.
pub enum SFlow {
    Continue,
    Return(Option<SValue>),
}

pub open spec fn limit_err() -> SError {
    serr(msg_limit(), None)
}

pub open spec fn st_define(st: IState, name: Seq<char>, v: SValue) -> IState {
    IState { scopes: env_define(st.scopes, name, v), ..st }
}

pub open spec fn st_enter(st: IState) -> IState {
    IState { scopes: st.scopes.push(Map::empty()), ..st }
}

pub open spec fn st_exit(st: IState) -> IState {
    IState { scopes: if st.scopes.len() > 1 { st.scopes.drop_last() } else { st.scopes }, ..st }
}

/// Assignment to an existing variable; an error when no scope holds it.
pub open spec fn s_set(st: IState, name: Seq<char>, v: SValue) -> (IState, Result<(), SError>) {
    match env_assign(st.scopes, name, v) {
        Some(sc) => (IState { scopes: sc, ..st }, Ok(())),
        None => (st, Err(serr(msg_undefined_assignment(name), None))),
    }
}

/// Lexicographic order of strings by code point.
pub open spec fn str_lt(a: Seq<char>, b: Seq<char>) -> bool
    decreases a.len(),
{
    if b.len() == 0 {
        false
    } else if a.len() == 0 {
        true
    } else if a[0] != b[0] {
        (a[0] as u32) < (b[0] as u32)
    } else {
        str_lt(a.drop_first(), b.drop_first())
    }
}

/// `b` to the power `e`.
pub open spec fn ipow(b: int, e: nat) -> int
    decreases e,
{
    if e == 0 {
        1
    } else {
        b * ipow(b, (e - 1) as nat)
    }
}

/// The power when it fits in 64 bits.
pub open spec fn checked_ipow(b: i64, e: u32) -> Option<i64> {
    if i64::MIN <= ipow(b as int, e as nat) <= i64::MAX {
        Some(ipow(b as int, e as nat) as i64)
    } else {
        None
    }
}

/// The exact power `a ** b` (for `b >= 0`) when it fits in 64 bits.
pub open spec fn checked_power(a: i64, b: i64) -> Option<i64> {
    if i64::MIN <= ipow(a as int, b as nat) <= i64::MAX {
        Some(ipow(a as int, b as nat) as i64)
    } else {
        None
    }
}

/// An integer result, or the overflow error when it does not fit.
pub open spec fn int_result(r: Option<i64>, op: Seq<char>) -> Result<SValue, SError> {
    match r {
        Some(n) => Ok(SValue::Integer(n)),
        None => Err(serr(msg_overflow(), Some(sctx(op)))),
    }
}

/// A unary operator applied to a value.
pub open spec fn s_unary(op: Seq<char>, v: SValue) -> Result<SValue, SError> {
    if op == "-"@ {
        match v {
            SValue::Integer(n) => int_result(0i64.checked_sub(n), "negating value"@),
            _ => Err(serr(msg_invalid_unary(v, "-"@), Some(sctx("applying unary '"@ + op + "'"@)))),
        }
    } else if op == "not"@ {
        Ok(SValue::Boolean(!truthy(v)))
    } else {
        Err(
            serr(
                msg_unknown_operator(op, true),
                Some(sctx("evaluating unary expression with '"@ + op + "'"@)),
            ),
        )
    }
}

pub open spec fn mismatch(l: SValue, r: SValue, op: Seq<char>, what: Seq<char>) -> Result<SValue, SError> {
    Err(serr(msg_type_mismatch(l, r, op), Some(sctx(what))))
}

pub open spec fn bad_comparison(l: SValue, r: SValue, op: Seq<char>) -> Result<SValue, SError> {
    Err(serr(msg_invalid_comparison(l, r, op), Some(sctx("comparing values"@))))
}

/// An ordering comparison: integers by value, strings by code point.
pub open spec fn s_compare(op: Seq<char>, l: SValue, r: SValue) -> Result<SValue, SError> {
    match (l, r) {
        (SValue::Integer(a), SValue::Integer(b)) => Ok(
            SValue::Boolean(
                if op == "<"@ {
                    a < b
                } else if op == ">"@ {
                    a > b
                } else if op == "<="@ {
                    a <= b
                } else {
                    a >= b
                },
            ),
        ),
        (SValue::Str(a), SValue::Str(b)) => Ok(
            SValue::Boolean(
                if op == "<"@ {
                    str_lt(a, b)
                } else if op == ">"@ {
                    str_lt(b, a)
                } else if op == "<="@ {
                    !str_lt(b, a)
                } else {
                    !str_lt(a, b)
                },
            ),
        ),
        _ => bad_comparison(l, r, op),
    }
}

/// A binary operator other than `and` and `or`, applied to two values.
pub open spec fn s_binop(op: Seq<char>, l: SValue, r: SValue) -> Result<SValue, SError> {
    if op == "+"@ {
        match (l, r) {
            (SValue::Integer(a), SValue::Integer(b)) => int_result(a.checked_add(b), "adding values"@),
            (SValue::Str(a), SValue::Str(b)) => Ok(SValue::Str(a + b)),
            _ => mismatch(l, r, op, "adding values"@),
        }
    } else if op == "-"@ {
        match (l, r) {
            (SValue::Integer(a), SValue::Integer(b)) => int_result(
                a.checked_sub(b),
                "subtracting values"@,
            ),
            _ => mismatch(l, r, op, "subtracting values"@),
        }
    } else if op == "*"@ {
        match (l, r) {
            (SValue::Integer(a), SValue::Integer(b)) => int_result(
                a.checked_mul(b),
                "multiplying values"@,
            ),
            _ => mismatch(l, r, op, "multiplying values"@),
        }
    } else if op == "/"@ {
        match (l, r) {
            (SValue::Integer(a), SValue::Integer(b)) => if b == 0 {
                Err(serr(msg_division_by_zero(), Some(sctx("dividing values"@))))
            } else {
                int_result(a.checked_div(b), "dividing values"@)
            },
            _ => mismatch(l, r, op, "dividing values"@),
        }
    } else if op == "%"@ {
        match (l, r) {
            (SValue::Integer(a), SValue::Integer(b)) => if b == 0 {
                Err(serr(msg_modulo_by_zero(), Some(sctx("calculating modulo"@))))
            } else {
                int_result(a.checked_rem(b), "calculating modulo"@)
            },
            _ => mismatch(l, r, op, "calculating modulo"@),
        }
    } else if op == "**"@ {
        match (l, r) {
            (SValue::Integer(a), SValue::Integer(b)) => if b < 0 {
                Ok(SValue::Integer(0))
            } else {
                int_result(checked_power(a, b), "calculating power"@)
            },
            _ => mismatch(l, r, op, "calculating power"@),
        }
    } else if op == "=="@ {
        Ok(SValue::Boolean(equal_values(l, r)))
    } else if op == "!="@ {
        Ok(SValue::Boolean(!equal_values(l, r)))
    } else if op == "<"@ || op == ">"@ || op == "<="@ || op == ">="@ {
        s_compare(op, l, r)
    } else {
        Err(
            serr(
                msg_unknown_operator(op, false),
                Some(sctx("evaluating binary expression with '"@ + op + "'"@)),
            ),
        )
    }
}

/// Binds `params[..n]` to `vals[..n]` in the innermost scope, in order.
pub open spec fn bind_upto(sc: Scopes, params: Seq<Seq<char>>, vals: Seq<SValue>, n: nat) -> Scopes
    decreases n,
{
    if n == 0 {
        sc
    } else {
        env_define(bind_upto(sc, params, vals, (n - 1) as nat), params[n - 1], vals[n - 1])
    }
}

/// Evaluates an expression.
pub open spec fn s_eval(f: nat, st: IState, e: SExpr) -> (IState, Result<SValue, SError>)
    decreases f,
{
    if f == 0 {
        (st, Err(limit_err()))
    } else {
        let g = (f - 1) as nat;
        match e {
            SExpr::Integer(n) => (st, Ok(SValue::Integer(n))),
            SExpr::Str(s) => (st, Ok(SValue::Str(s))),
            SExpr::Boolean(b) => (st, Ok(SValue::Boolean(b))),
            SExpr::Nil => (st, Ok(SValue::Nil)),
            SExpr::Identifier(name) => match env_lookup(st.scopes, name) {
                Some(v) => (st, Ok(v)),
                None => (
                    st,
                    Err(
                        serr(
                            msg_undefined_variable(name),
                            Some(sctx("accessing variable '"@ + name + "'"@)),
                        ),
                    ),
                ),
            },
            SExpr::Array(es) => {
                let (st1, r) = s_eval_list(g, st, es, 0, seq![]);
                match r {
                    Ok(vs) => (st1, Ok(SValue::Array(vs))),
                    Err(er) => (st1, Err(er)),
                }
            },
            SExpr::Unary(op, x) => {
                let (st1, r) = s_eval(g, st, *x);
                match r {
                    Ok(v) => (st1, s_unary(op, v)),
                    Err(er) => (st1, Err(er)),
                }
            },
            SExpr::Binary(l, op, r) => s_binary(g, st, *l, op, *r),
            SExpr::Call(name, args) => s_call(g, st, name, args),
            SExpr::Assign(name, x) => {
                let (st1, r) = s_eval(g, st, *x);
                match r {
                    Ok(v) => {
                        let (st2, a) = s_set(st1, name, v);
                        match a {
                            Ok(_) => (st2, Ok(v)),
                            Err(er) => (st2, Err(er)),
                        }
                    },
                    Err(er) => (st1, Err(er)),
                }
            },
        }
    }
}

/// Evaluates `es[i..]` from left to right, appending the values to `acc`.
pub open spec fn s_eval_list(f: nat, st: IState, es: Seq<SExpr>, i: nat, acc: Seq<SValue>) -> (
    IState,
    Result<Seq<SValue>, SError>,
)
    decreases f,
{
    if f == 0 {
        (st, Err(limit_err()))
    } else if i >= es.len() {
        (st, Ok(acc))
    } else {
        let (st1, r) = s_eval((f - 1) as nat, st, es[i as int]);
        match r {
            Ok(v) => s_eval_list((f - 1) as nat, st1, es, i + 1, acc.push(v)),
            Err(er) => (st1, Err(er)),
        }
    }
}

/// A binary expression: the left operand first; `and` and `or` evaluate the
/// right operand only when the left one does not decide the result.
pub open spec fn s_binary(f: nat, st: IState, l: SExpr, op: Seq<char>, r: SExpr) -> (
    IState,
    Result<SValue, SError>,
)
    decreases f,
{
    if f == 0 {
        (st, Err(limit_err()))
    } else {
        let g = (f - 1) as nat;
        let (st1, lr) = s_eval(g, st, l);
        match lr {
            Err(er) => (st1, Err(er)),
            Ok(lv) => if (op == "and"@ && !truthy(lv)) || (op == "or"@ && truthy(lv)) {
                (st1, Ok(lv))
            } else {
                let (st2, rr) = s_eval(g, st1, r);
                match rr {
                    Err(er) => (st2, Err(er)),
                    Ok(rv) => if op == "and"@ || op == "or"@ {
                        (st2, Ok(SValue::Boolean(truthy(rv))))
                    } else {
                        (st2, s_binop(op, lv, rv))
                    },
                }
            },
        }
    }
}

/// A call: the callee is looked up, checked to be a function of the right
/// arity, the arguments are evaluated, and the body runs in a new scope that
/// binds the parameters.
pub open spec fn s_call(f: nat, st: IState, name: Seq<char>, args: Seq<SExpr>) -> (
    IState,
    Result<SValue, SError>,
)
    decreases f,
{
    if f == 0 {
        (st, Err(limit_err()))
    } else {
        let g = (f - 1) as nat;
        match env_lookup(st.scopes, name) {
            None => (
                st,
                Err(
                    serr(
                        msg_undefined_function(name),
                        Some(sctx("calling function '"@ + name + "'"@)),
                    ),
                ),
            ),
            Some(SValue::Function(params, body)) => if params.len() != args.len() {
                (
                    st,
                    Err(
                        serr(
                            msg_arity(name, params.len(), args.len()),
                            Some(sctx("calling function '"@ + name + "'"@)),
                        ),
                    ),
                )
            } else {
                let (st1, ar) = s_eval_list(g, st, args, 0, seq![]);
                match ar {
                    Err(er) => (st1, Err(er)),
                    Ok(vals) => if st1.depth >= usize::MAX {
                        (st1, Err(limit_err()))
                    } else {
                        let st2 = IState {
                            scopes: bind_upto(
                                st1.scopes.push(Map::empty()),
                                params,
                                vals,
                                params.len(),
                            ),
                            depth: st1.depth + 1,
                            out: st1.out,
                        };
                        let (st3, br) = s_stmts(g, st2, body, 0);
                        let st4 = IState { depth: st1.depth, ..st_exit(st3) };
                        match br {
                            Ok(SFlow::Return(Some(v))) => (st4, Ok(v)),
                            Ok(_) => (st4, Ok(SValue::Nil)),
                            Err(er) => (st4, Err(er)),
                        }
                    },
                }
            },
            Some(v) => (
                st,
                Err(serr(msg_not_callable(v), Some(sctx("calling '"@ + name + "'"@)))),
            ),
        }
    }
}

/// Executes one statement.
pub open spec fn s_exec(f: nat, st: IState, s: SStmt) -> (IState, Result<SFlow, SError>)
    decreases f,
{
    if f == 0 {
        (st, Err(limit_err()))
    } else {
        let g = (f - 1) as nat;
        match s {
            SStmt::Let(name, e) => {
                let (st1, r) = s_eval(g, st, e);
                match r {
                    Ok(v) => (st_define(st1, name, v), Ok(SFlow::Continue)),
                    Err(er) => (st1, Err(er)),
                }
            },
            SStmt::Assign(name, e) => {
                let (st1, r) = s_eval(g, st, e);
                match r {
                    Ok(v) => {
                        let (st2, a) = s_set(st1, name, v);
                        match a {
                            Ok(_) => (st2, Ok(SFlow::Continue)),
                            Err(er) => (st2, Err(er)),
                        }
                    },
                    Err(er) => (st1, Err(er)),
                }
            },
            SStmt::If(c, cons, alt) => s_if(g, st, c, cons, alt),
            SStmt::While(c, body) => s_while(g, st, c, body),
            SStmt::For(item, list, body) => s_for(g, st, item, list, body),
            SStmt::Block(ss) => s_block(g, st, ss),
            SStmt::Return(v) => if st.depth == 0 {
                (st, Err(serr(msg_return_outside(), None)))
            } else {
                match v {
                    None => (st, Ok(SFlow::Return(None))),
                    Some(e) => {
                        let (st1, r) = s_eval(g, st, e);
                        match r {
                            Ok(v) => (st1, Ok(SFlow::Return(Some(v)))),
                            Err(er) => (st1, Err(er)),
                        }
                    },
                }
            },
            SStmt::Write(e) => {
                let (st1, r) = s_eval(g, st, e);
                match r {
                    Ok(v) => (IState { out: st1.out.push(display(v)), ..st1 }, Ok(SFlow::Continue)),
                    Err(er) => (st1, Err(er)),
                }
            },
            SStmt::Expr(e) => {
                let (st1, r) = s_eval(g, st, e);
                match r {
                    Ok(_) => (st1, Ok(SFlow::Continue)),
                    Err(er) => (st1, Err(er)),
                }
            },
            SStmt::Func(name, params, body) => (
                st_define(st, name, SValue::Function(params, body)),
                Ok(SFlow::Continue),
            ),
        }
    }
}

/// Executes `ss[i..]` in order, stopping at the first `return` or error.
pub open spec fn s_stmts(f: nat, st: IState, ss: Seq<SStmt>, i: nat) -> (IState, Result<SFlow, SError>)
    decreases f,
{
    if f == 0 {
        (st, Err(limit_err()))
    } else if i >= ss.len() {
        (st, Ok(SFlow::Continue))
    } else {
        let (st1, r) = s_exec((f - 1) as nat, st, ss[i as int]);
        match r {
            Ok(SFlow::Continue) => s_stmts((f - 1) as nat, st1, ss, i + 1),
            _ => (st1, r),
        }
    }
}

/// An `if` statement: the branch that the condition selects runs in the
/// current scope.
pub open spec fn s_if(f: nat, st: IState, c: SExpr, cons: Seq<SStmt>, alt: Option<Seq<SStmt>>) -> (
    IState,
    Result<SFlow, SError>,
)
    decreases f,
{
    if f == 0 {
        (st, Err(limit_err()))
    } else {
        let g = (f - 1) as nat;
        let (st1, r) = s_eval(g, st, c);
        match r {
            Err(er) => (st1, Err(er)),
            Ok(v) => if truthy(v) {
                s_stmts(g, st1, cons, 0)
            } else {
                match alt {
                    Some(a) => s_stmts(g, st1, a, 0),
                    None => (st1, Ok(SFlow::Continue)),
                }
            },
        }
    }
}

/// A `while` loop: the body runs in the current scope while the condition
/// is truthy.
pub open spec fn s_while(f: nat, st: IState, c: SExpr, body: Seq<SStmt>) -> (IState, Result<SFlow, SError>)
    decreases f,
{
    if f == 0 {
        (st, Err(limit_err()))
    } else {
        let g = (f - 1) as nat;
        let (st1, r) = s_eval(g, st, c);
        match r {
            Err(er) => (st1, Err(er)),
            Ok(v) => if !truthy(v) {
                (st1, Ok(SFlow::Continue))
            } else {
                let (st2, br) = s_stmts(g, st1, body, 0);
                match br {
                    Ok(SFlow::Continue) => s_while(g, st2, c, body),
                    _ => (st2, br),
                }
            },
        }
    }
}

/// A `for` loop: the list must be an array; its elements are bound to the
/// item in one new scope, and the body runs once for each.
pub open spec fn s_for(f: nat, st: IState, item: Seq<char>, list: SExpr, body: Seq<SStmt>) -> (
    IState,
    Result<SFlow, SError>,
)
    decreases f,
{
    if f == 0 {
        (st, Err(limit_err()))
    } else {
        let g = (f - 1) as nat;
        let (st1, r) = s_eval(g, st, list);
        match r {
            Err(er) => (st1, Err(er)),
            Ok(SValue::Array(vs)) => {
                let (st2, br) = s_for_iter(g, st_enter(st1), item, vs, 0, body);
                (st_exit(st2), br)
            },
            Ok(v) => (
                st1,
                Err(
                    serr(
                        msg_not_iterable(v),
                        Some(sctx("iterating over '"@ + item + "' in for loop"@)),
                    ),
                ),
            ),
        }
    }
}

/// The iterations of a `for` loop from element `k` on.
pub open spec fn s_for_iter(f: nat, st: IState, item: Seq<char>, vs: Seq<SValue>, k: nat, body: Seq<SStmt>) -> (
    IState,
    Result<SFlow, SError>,
)
    decreases f,
{
    if f == 0 {
        (st, Err(limit_err()))
    } else if k >= vs.len() {
        (st, Ok(SFlow::Continue))
    } else {
        let g = (f - 1) as nat;
        let (st1, br) = s_stmts(g, st_define(st, item, vs[k as int]), body, 0);
        match br {
            Ok(SFlow::Continue) => s_for_iter(g, st1, item, vs, k + 1, body),
            _ => (st1, br),
        }
    }
}

/// A block: its statements run in a new scope, which is left whatever happens.
pub open spec fn s_block(f: nat, st: IState, ss: Seq<SStmt>) -> (IState, Result<SFlow, SError>)
    decreases f,
{
    if f == 0 {
        (st, Err(limit_err()))
    } else {
        let (st1, r) = s_stmts((f - 1) as nat, st_enter(st), ss, 0);
        (st_exit(st1), r)
    }
}

/// How a run of top-level statements ended: it reached the end, carrying
/// the program's value so far, or a `return` gave the value.
pub enum STop {
    Fell(SValue),
    Returned(SValue),
}

/// Top-level statements from `i` on, each run once. An expression statement
/// gives the program its value; an `if` runs the branch that its condition
/// selects as top-level statements, so that their values count too; every
/// other statement runs as in a body, and a `return` ends the run. A block
/// runs its statements likewise, in a scope of its own.
pub open spec fn s_top(f: nat, st: IState, ss: Seq<SStmt>, i: nat, last: SValue) -> (
    IState,
    Result<STop, SError>,
)
    decreases f, 0int,
{
    if f == 0 {
        (st, Err(limit_err()))
    } else if i >= ss.len() {
        (st, Ok(STop::Fell(last)))
    } else {
        let g = (f - 1) as nat;
        match ss[i as int] {
            SStmt::Expr(e) => {
                let (st1, r) = s_eval(g, st, e);
                match r {
                    Err(er) => (st1, Err(er)),
                    Ok(v) => s_top(g, st1, ss, i + 1, v),
                }
            },
            SStmt::If(c, cons, alt) => {
                let (st2, r2) = s_top_if(g, st, c, cons, alt, last);
                match r2 {
                    Ok(STop::Fell(l)) => s_top(g, st2, ss, i + 1, l),
                    _ => (st2, r2),
                }
            },
            SStmt::Block(b) => {
                let (st2, r2) = s_top_block(g, st, b, last);
                match r2 {
                    Ok(STop::Fell(l)) => s_top(g, st2, ss, i + 1, l),
                    _ => (st2, r2),
                }
            },
            _ => {
                let (st1, r) = s_exec(g, st, ss[i as int]);
                match r {
                    Err(er) => (st1, Err(er)),
                    Ok(SFlow::Return(Some(v))) => (st1, Ok(STop::Returned(v))),
                    Ok(SFlow::Return(None)) => (st1, Ok(STop::Returned(SValue::Nil))),
                    Ok(SFlow::Continue) => s_top(g, st1, ss, i + 1, last),
                }
            },
        }
    }
}

/// An `if` at the top: the condition, then the branch it selects run as
/// top-level statements.
pub open spec fn s_top_if(
    f: nat,
    st: IState,
    c: SExpr,
    cons: Seq<SStmt>,
    alt: Option<Seq<SStmt>>,
    last: SValue,
) -> (IState, Result<STop, SError>)
    decreases f, 1int,
{
    let (st1, r) = s_eval(f, st, c);
    match r {
        Err(er) => (st1, Err(er)),
        Ok(v) => s_top(f, st1, if_branch(v, cons, alt), 0, last),
    }
}

/// A block at the top: its statements run as top-level statements in a new
/// scope, which is left whatever happens.
pub open spec fn s_top_block(f: nat, st: IState, ss: Seq<SStmt>, last: SValue) -> (
    IState,
    Result<STop, SError>,
)
    decreases f, 1int,
{
    let (st1, r) = s_top(f, st_enter(st), ss, 0, last);
    (st_exit(st1), r)
}

/// The statements that an `if` runs for the condition's value.
pub open spec fn if_branch(v: SValue, cons: Seq<SStmt>, alt: Option<Seq<SStmt>>) -> Seq<SStmt> {
    if truthy(v) {
        cons
    } else {
        match alt {
            Some(a) => a,
            None => Seq::<SStmt>::empty(),
        }
    }
}

/// A program, from statement `i` on: the value of the last expression
/// statement that ran at the top (in an `if` or a block at the top too), or
/// the value of a `return`.
pub open spec fn s_program(f: nat, st: IState, ss: Seq<SStmt>, i: nat, last: SValue) -> (
    IState,
    Result<SValue, SError>,
) {
    let (st1, r) = s_top(f, st, ss, i, last);
    (
        st1,
        match r {
            Ok(STop::Fell(v)) => Ok(v),
            Ok(STop::Returned(v)) => Ok(v),
            Err(e) => Err(e),
        },
    )
}

/// A successful evaluation of a list gives one value per expression.
pub proof fn lemma_eval_list_len(f: nat, st: IState, es: Seq<SExpr>, i: nat, acc: Seq<SValue>)
    requires
        i <= es.len(),
    ensures
        s_eval_list(f, st, es, i, acc).1 matches Ok(vs) ==> vs.len() == acc.len() + es.len() - i,
    decreases f,
{
    if f > 0 && i < es.len() {
        let (st1, r) = s_eval((f - 1) as nat, st, es[i as int]);
        if let Ok(v) = r {
            lemma_eval_list_len((f - 1) as nat, st1, es, i + 1, acc.push(v));
        }
    }
}

} // verus!
