//! Properties of the interpreter that hold of every input.
use vstd::prelude::*;
use crate::parser::ast::{SExpr, SStmt};
use super::value::{SValue, truthy, equal_values, display};
use super::env::{Scopes, env_lookup, env_define, env_assign};
use super::spec::{
    IState, SFlow, s_eval, s_eval_list, s_binary, s_call, s_exec, s_stmts, s_if, s_while, s_for,
    s_for_iter, s_block, s_program, s_binop, s_top, s_top_if, s_top_block, if_branch, STop, s_set, st_define, st_enter, st_exit, bind_upto,
};

verus! {

/// Reading a name just defined gives the value it was defined with; other
/// names read as before.
pub proof fn law_define_then_lookup(sc: Scopes, name: Seq<char>, v: SValue, other: Seq<char>)
    requires
        sc.len() >= 1,
    ensures
        env_lookup(env_define(sc, name, v), name) == Some(v),
        other != name ==> env_lookup(env_define(sc, name, v), other) == env_lookup(sc, other),
{
    let d = env_define(sc, name, v);
    assert(d.drop_last() =~= sc.drop_last());
}

/// Leaving a scope just entered restores the state, whatever was defined
/// in it meanwhile.
pub proof fn law_scope_isolation(st: IState, name: Seq<char>, v: SValue)
    requires
        st.scopes.len() >= 1,
    ensures
        st_exit(st_enter(st)) == st,
        st_exit(st_define(st_enter(st), name, v)) == st,
{
    assert(st.scopes.push(Map::empty()).drop_last() =~= st.scopes);
    assert(env_define(st.scopes.push(Map::empty()), name, v).drop_last() =~= st.scopes);
}

/// The scopes after binding each name of `defs` in turn in the innermost scope.
pub open spec fn define_all(sc: Scopes, defs: Seq<(Seq<char>, SValue)>) -> Scopes
    decreases defs.len(),
{
    if defs.len() == 0 {
        sc
    } else {
        env_define(define_all(sc, defs.drop_last()), defs.last().0, defs.last().1)
    }
}

/// Leaving a scope just entered restores the scopes, however many names were
/// defined in it meanwhile: every name reads as it did before.
pub proof fn law_scope_isolation_defs(sc: Scopes, defs: Seq<(Seq<char>, SValue)>, name: Seq<char>)
    requires
        sc.len() >= 1,
    ensures
        define_all(sc.push(Map::empty()), defs).len() == sc.len() + 1,
        define_all(sc.push(Map::empty()), defs).drop_last() == sc,
        env_lookup(define_all(sc.push(Map::empty()), defs).drop_last(), name) == env_lookup(sc, name),
    decreases defs.len(),
{
    if defs.len() == 0 {
        assert(sc.push(Map::empty()).drop_last() =~= sc);
    } else {
        law_scope_isolation_defs(sc, defs.drop_last(), name);
        let d = define_all(sc.push(Map::empty()), defs.drop_last());
        assert(env_define(d, defs.last().0, defs.last().1).drop_last() =~= d.drop_last());
    }
}

/// Assignment succeeds exactly when the name is defined somewhere; after it,
/// the name reads as the assigned value, and the number of scopes is kept.
pub proof fn law_assign_then_lookup(sc: Scopes, name: Seq<char>, v: SValue)
    ensures
        env_assign(sc, name, v) is Some <==> env_lookup(sc, name) is Some,
        env_assign(sc, name, v) matches Some(s) ==> env_lookup(s, name) == Some(v) && s.len() == sc.len(),
    decreases sc.len(),
{
    if sc.len() > 0 {
        law_assign_then_lookup(sc.drop_last(), name, v);
        if !sc.last().contains_key(name) {
            if let Some(s) = env_assign(sc.drop_last(), name, v) {
                let t = s.push(sc.last());
                assert(t.drop_last() =~= s);
            }
        } else {
            let t = sc.update(sc.len() - 1, sc.last().insert(name, v));
            assert(t.last() == sc.last().insert(name, v));
        }
    }
}

/// After `let name = e` runs, reading `name` gives the value of `e`.
pub proof fn law_let_then_read(f: nat, g: nat, st: IState, name: Seq<char>, e: SExpr)
    requires
        st.scopes.len() >= 1,
        g >= 1,
        s_eval((f - 1) as nat, st, e).1 is Ok,
        f >= 1,
    ensures
        ({
            let (st1, r) = s_exec(f, st, SStmt::Let(name, e));
            let v = s_eval((f - 1) as nat, st, e).1->Ok_0;
            r == Ok::<SFlow, super::error::SError>(SFlow::Continue) && s_eval(g, st1, SExpr::Identifier(name)) == (
                st1,
                Ok::<SValue, super::error::SError>(v),
            )
        }),
{
    let (st1, r) = s_eval((f - 1) as nat, st, e);
    lemma_balance_eval((f - 1) as nat, st, e);
    let v = r->Ok_0;
    law_define_then_lookup(st1.scopes, name, v, name);
}

/// `and` with a falsy left operand, and `or` with a truthy one, give the left
/// value whatever the right operand is: the right operand is not evaluated.
pub proof fn law_short_circuit(f: nat, st: IState, l: SExpr, op: Seq<char>, r1: SExpr, r2: SExpr)
    requires
        f >= 1,
        s_eval((f - 1) as nat, st, l).1 matches Ok(lv) && ((op == "and"@ && !truthy(lv)) || (op == "or"@
            && truthy(lv))),
    ensures
        s_binary(f, st, l, op, r1) == s_binary(f, st, l, op, r2),
        s_binary(f, st, l, op, r1) == s_eval((f - 1) as nat, st, l),
{
}

/// Equality of values is reflexive on every value but a function, and
/// symmetric; two functions are never equal.
pub proof fn law_equality(a: SValue, b: SValue)
    ensures
        !(a is Function) ==> equal_values(a, a),
        equal_values(a, b) == equal_values(b, a),
        (a is Function && b is Function) ==> !equal_values(a, b),
{
}

/// Bindings leave the number of scopes as it is.
proof fn lemma_bind_len(sc: Scopes, params: Seq<Seq<char>>, vals: Seq<SValue>, n: nat)
    ensures
        bind_upto(sc, params, vals, n).len() == sc.len(),
    decreases n,
{
    if n > 0 {
        lemma_bind_len(sc, params, vals, (n - 1) as nat);
    }
}

proof fn lemma_set_len(st: IState, name: Seq<char>, v: SValue)
    ensures
        s_set(st, name, v).0.scopes.len() == st.scopes.len(),
        s_set(st, name, v).0.depth == st.depth,
{
    law_assign_then_lookup(st.scopes, name, v);
}

/// Evaluation keeps the number of scopes and the call depth, whatever
/// happens: every scope entered is left and every call returns.
pub proof fn lemma_balance_eval(f: nat, st: IState, e: SExpr)
    requires
        st.scopes.len() >= 1,
    ensures
        s_eval(f, st, e).0.scopes.len() == st.scopes.len(),
        s_eval(f, st, e).0.depth == st.depth,
    decreases f, 2int,
{
    if f > 0 {
        let g = (f - 1) as nat;
        match e {
            SExpr::Array(es) => {
                lemma_balance_list(g, st, es, 0, seq![]);
            },
            SExpr::Unary(op, x) => {
                lemma_balance_eval(g, st, *x);
            },
            SExpr::Binary(l, op, r) => {
                lemma_balance_binary(g, st, *l, op, *r);
            },
            SExpr::Call(name, args) => {
                lemma_balance_call(g, st, name, args);
            },
            SExpr::Assign(name, x) => {
                lemma_balance_eval(g, st, *x);
                let (st1, r) = s_eval(g, st, *x);
                if let Ok(v) = r {
                    lemma_set_len(st1, name, v);
                }
            },
            _ => {},
        }
    }
}

proof fn lemma_balance_list(f: nat, st: IState, es: Seq<SExpr>, i: nat, acc: Seq<SValue>)
    requires
        st.scopes.len() >= 1,
    ensures
        s_eval_list(f, st, es, i, acc).0.scopes.len() == st.scopes.len(),
        s_eval_list(f, st, es, i, acc).0.depth == st.depth,
    decreases f, 1int,
{
    if f > 0 && i < es.len() {
        let g = (f - 1) as nat;
        lemma_balance_eval(g, st, es[i as int]);
        let (st1, r) = s_eval(g, st, es[i as int]);
        if let Ok(v) = r {
            lemma_balance_list(g, st1, es, i + 1, acc.push(v));
        }
    }
}

proof fn lemma_balance_binary(f: nat, st: IState, l: SExpr, op: Seq<char>, r: SExpr)
    requires
        st.scopes.len() >= 1,
    ensures
        s_binary(f, st, l, op, r).0.scopes.len() == st.scopes.len(),
        s_binary(f, st, l, op, r).0.depth == st.depth,
    decreases f, 1int,
{
    if f > 0 {
        let g = (f - 1) as nat;
        lemma_balance_eval(g, st, l);
        let (st1, lr) = s_eval(g, st, l);
        lemma_balance_eval(g, st1, r);
    }
}

proof fn lemma_balance_call(f: nat, st: IState, name: Seq<char>, args: Seq<SExpr>)
    requires
        st.scopes.len() >= 1,
    ensures
        s_call(f, st, name, args).0.scopes.len() == st.scopes.len(),
        s_call(f, st, name, args).0.depth == st.depth,
    decreases f, 1int,
{
    if f > 0 {
        let g = (f - 1) as nat;
        lemma_balance_list(g, st, args, 0, seq![]);
        if let Some(SValue::Function(params, body)) = env_lookup(st.scopes, name) {
            if params.len() == args.len() {
                let (st1, ar) = s_eval_list(g, st, args, 0, seq![]);
                if let Ok(vals) = ar {
                    if st1.depth < usize::MAX {
                        let sc = st1.scopes.push(Map::empty());
                        lemma_bind_len(sc, params, vals, params.len());
                        let st2 = IState {
                            scopes: bind_upto(sc, params, vals, params.len()),
                            depth: st1.depth + 1,
                            out: st1.out,
                        };
                        lemma_balance_stmts(g, st2, body, 0);
                    }
                }
            }
        }
    }
}

/// Executing a statement keeps the number of scopes and the call depth,
/// whatever happens.
pub proof fn lemma_balance_exec(f: nat, st: IState, s: SStmt)
    requires
        st.scopes.len() >= 1,
    ensures
        s_exec(f, st, s).0.scopes.len() == st.scopes.len(),
        s_exec(f, st, s).0.depth == st.depth,
    decreases f, 2int,
{
    if f > 0 {
        let g = (f - 1) as nat;
        match s {
            SStmt::Let(name, e) => {
                lemma_balance_eval(g, st, e);
            },
            SStmt::Assign(name, e) => {
                lemma_balance_eval(g, st, e);
                let (st1, r) = s_eval(g, st, e);
                if let Ok(v) = r {
                    lemma_set_len(st1, name, v);
                }
            },
            SStmt::If(c, cons, alt) => {
                lemma_balance_if(g, st, c, cons, alt);
            },
            SStmt::While(c, body) => {
                lemma_balance_while(g, st, c, body);
            },
            SStmt::For(item, list, body) => {
                lemma_balance_for(g, st, item, list, body);
            },
            SStmt::Block(ss) => {
                lemma_balance_block(g, st, ss);
            },
            SStmt::Return(v) => {
                if let Some(e) = v {
                    lemma_balance_eval(g, st, e);
                }
            },
            SStmt::Write(e) => {
                lemma_balance_eval(g, st, e);
            },
            SStmt::Expr(e) => {
                lemma_balance_eval(g, st, e);
            },
            SStmt::Func(..) => {},
        }
    }
}

proof fn lemma_balance_stmts(f: nat, st: IState, ss: Seq<SStmt>, i: nat)
    requires
        st.scopes.len() >= 1,
    ensures
        s_stmts(f, st, ss, i).0.scopes.len() == st.scopes.len(),
        s_stmts(f, st, ss, i).0.depth == st.depth,
    decreases f, 1int,
{
    if f > 0 && i < ss.len() {
        let g = (f - 1) as nat;
        lemma_balance_exec(g, st, ss[i as int]);
        let (st1, r) = s_exec(g, st, ss[i as int]);
        lemma_balance_stmts(g, st1, ss, i + 1);
    }
}

proof fn lemma_balance_if(f: nat, st: IState, c: SExpr, cons: Seq<SStmt>, alt: Option<Seq<SStmt>>)
    requires
        st.scopes.len() >= 1,
    ensures
        s_if(f, st, c, cons, alt).0.scopes.len() == st.scopes.len(),
        s_if(f, st, c, cons, alt).0.depth == st.depth,
    decreases f, 1int,
{
    if f > 0 {
        let g = (f - 1) as nat;
        lemma_balance_eval(g, st, c);
        let (st1, r) = s_eval(g, st, c);
        lemma_balance_stmts(g, st1, cons, 0);
        if let Some(a) = alt {
            lemma_balance_stmts(g, st1, a, 0);
        }
    }
}

proof fn lemma_balance_while(f: nat, st: IState, c: SExpr, body: Seq<SStmt>)
    requires
        st.scopes.len() >= 1,
    ensures
        s_while(f, st, c, body).0.scopes.len() == st.scopes.len(),
        s_while(f, st, c, body).0.depth == st.depth,
    decreases f, 1int,
{
    if f > 0 {
        let g = (f - 1) as nat;
        lemma_balance_eval(g, st, c);
        let (st1, r) = s_eval(g, st, c);
        lemma_balance_stmts(g, st1, body, 0);
        let (st2, br) = s_stmts(g, st1, body, 0);
        lemma_balance_while(g, st2, c, body);
    }
}

proof fn lemma_balance_for(f: nat, st: IState, item: Seq<char>, list: SExpr, body: Seq<SStmt>)
    requires
        st.scopes.len() >= 1,
    ensures
        s_for(f, st, item, list, body).0.scopes.len() == st.scopes.len(),
        s_for(f, st, item, list, body).0.depth == st.depth,
    decreases f, 1int,
{
    if f > 0 {
        let g = (f - 1) as nat;
        lemma_balance_eval(g, st, list);
        let (st1, r) = s_eval(g, st, list);
        if let Ok(SValue::Array(vs)) = r {
            lemma_balance_for_iter(g, st_enter(st1), item, vs, 0, body);
        }
    }
}

proof fn lemma_balance_for_iter(f: nat, st: IState, item: Seq<char>, vs: Seq<SValue>, k: nat, body: Seq<SStmt>)
    requires
        st.scopes.len() >= 1,
    ensures
        s_for_iter(f, st, item, vs, k, body).0.scopes.len() == st.scopes.len(),
        s_for_iter(f, st, item, vs, k, body).0.depth == st.depth,
    decreases f, 1int,
{
    if f > 0 && k < vs.len() {
        let g = (f - 1) as nat;
        let st0 = st_define(st, item, vs[k as int]);
        lemma_balance_stmts(g, st0, body, 0);
        let (st1, br) = s_stmts(g, st0, body, 0);
        lemma_balance_for_iter(g, st1, item, vs, k + 1, body);
    }
}

proof fn lemma_balance_block(f: nat, st: IState, ss: Seq<SStmt>)
    requires
        st.scopes.len() >= 1,
    ensures
        s_block(f, st, ss).0.scopes.len() == st.scopes.len(),
        s_block(f, st, ss).0.depth == st.depth,
    decreases f, 1int,
{
    if f > 0 {
        lemma_balance_stmts((f - 1) as nat, st_enter(st), ss, 0);
    }
}

/// Whatever a statement does, and whether or not it fails, it leaves the
/// number of scopes and the call depth as they were: every scope it enters
/// is left again and every call it makes returns.
pub proof fn law_statements_keep_scopes(f: nat, st: IState, s: SStmt, e: SExpr)
    requires
        st.scopes.len() >= 1,
    ensures
        s_exec(f, st, s).0.scopes.len() == st.scopes.len(),
        s_exec(f, st, s).0.depth == st.depth,
        s_eval(f, st, e).0.scopes.len() == st.scopes.len(),
        s_eval(f, st, e).0.depth == st.depth,
{
    lemma_balance_exec(f, st, s);
    lemma_balance_eval(f, st, e);
}

/// A block leaves the environment with as many scopes as before: nothing
/// it defines stays visible after it.
pub proof fn law_block_keeps_scopes(f: nat, st: IState, ss: Seq<SStmt>)
    requires
        st.scopes.len() >= 1,
    ensures
        s_block(f, st, ss).0.scopes.len() == st.scopes.len(),
        s_block(f, st, ss).0.depth == st.depth,
{
    lemma_balance_block(f, st, ss);
}

/// Every name bound in one of the first `n` scopes of `b` was bound in the
/// same scope of `a`.
pub open spec fn no_new_names(a: Scopes, b: Scopes, n: int) -> bool {
    forall|k: int, x: Seq<char>| 0 <= k < n && #[trigger] b[k].contains_key(x) ==> a[k].contains_key(x)
}

proof fn lemma_nn_trans(a: Scopes, b: Scopes, c: Scopes, n: int, m: int)
    requires
        no_new_names(a, b, n),
        no_new_names(b, c, m),
    ensures
        no_new_names(a, c, if n < m { n } else { m }),
{
    assert forall|k: int, x: Seq<char>| 0 <= k < (if n < m { n } else { m }) && #[trigger] c[k].contains_key(x)
        implies a[k].contains_key(x) by {
        assert(b[k].contains_key(x));
    }
}

proof fn lemma_nn_refl(a: Scopes, n: int)
    ensures
        no_new_names(a, a, n),
{
}

proof fn lemma_nn_define(sc: Scopes, name: Seq<char>, v: SValue)
    ensures
        no_new_names(sc, env_define(sc, name, v), sc.len() - 1),
        env_define(sc, name, v).len() == sc.len(),
{
}

proof fn lemma_nn_assign(sc: Scopes, name: Seq<char>, v: SValue)
    ensures
        env_assign(sc, name, v) matches Some(s) ==> no_new_names(sc, s, sc.len() as int),
    decreases sc.len(),
{
    if sc.len() > 0 && !sc.last().contains_key(name) {
        lemma_nn_assign(sc.drop_last(), name, v);
        law_assign_then_lookup(sc.drop_last(), name, v);
        if let Some(s) = env_assign(sc.drop_last(), name, v) {
            let t = s.push(sc.last());
            assert forall|k: int, x: Seq<char>| 0 <= k < sc.len() && #[trigger] t[k].contains_key(x)
                implies sc[k].contains_key(x) by {
                if k < sc.len() - 1 {
                    assert(t[k] == s[k]);
                    assert(sc.drop_last()[k] == sc[k]);
                }
            }
        }
    }
}

proof fn lemma_nn_set(st: IState, name: Seq<char>, v: SValue)
    ensures
        no_new_names(st.scopes, s_set(st, name, v).0.scopes, st.scopes.len() as int),
{
    lemma_nn_assign(st.scopes, name, v);
}

proof fn lemma_nn_bind(sc: Scopes, params: Seq<Seq<char>>, vals: Seq<SValue>, n: nat)
    requires
        sc.len() >= 1,
    ensures
        no_new_names(sc, bind_upto(sc, params, vals, n), sc.len() - 1),
        bind_upto(sc, params, vals, n).len() == sc.len(),
    decreases n,
{
    if n > 0 {
        lemma_nn_bind(sc, params, vals, (n - 1) as nat);
        let b = bind_upto(sc, params, vals, (n - 1) as nat);
        lemma_nn_define(b, params[n - 1], vals[n - 1]);
        lemma_nn_trans(sc, b, bind_upto(sc, params, vals, n), sc.len() - 1, sc.len() - 1);
    }
}

/// Leaving a scope keeps the scopes below it.
proof fn lemma_nn_exit(a: Scopes, b: IState, n: int)
    requires
        no_new_names(a, b.scopes, n),
        b.scopes.len() == n + 1,
        n >= 1,
    ensures
        no_new_names(a, st_exit(b).scopes, n),
{
    assert forall|k: int, x: Seq<char>| 0 <= k < n && #[trigger] st_exit(b).scopes[k].contains_key(x)
        implies a[k].contains_key(x) by {
        assert(st_exit(b).scopes[k] == b.scopes[k]);
    }
}

/// Entering a scope keeps the scopes below it.
proof fn lemma_nn_enter(st: IState)
    ensures
        no_new_names(st.scopes, st_enter(st).scopes, st.scopes.len() as int),
{
    assert forall|k: int, x: Seq<char>| 0 <= k < st.scopes.len() && #[trigger] st_enter(st).scopes[k].contains_key(x)
        implies st.scopes[k].contains_key(x) by {
        assert(st_enter(st).scopes[k] == st.scopes[k]);
    }
}

/// Evaluation binds no new name in any scope.
proof fn lemma_names_eval(f: nat, st: IState, e: SExpr)
    requires
        st.scopes.len() >= 1,
    ensures
        no_new_names(st.scopes, s_eval(f, st, e).0.scopes, st.scopes.len() as int),
    decreases f, 2int,
{
    lemma_balance_eval(f, st, e);
    if f > 0 {
        let g = (f - 1) as nat;
        match e {
            SExpr::Array(es) => {
                lemma_names_list(g, st, es, 0, seq![]);
            },
            SExpr::Unary(op, x) => {
                lemma_names_eval(g, st, *x);
            },
            SExpr::Binary(l, op, r) => {
                lemma_names_binary(g, st, *l, op, *r);
            },
            SExpr::Call(name, args) => {
                lemma_names_call(g, st, name, args);
            },
            SExpr::Assign(name, x) => {
                lemma_names_eval(g, st, *x);
                lemma_balance_eval(g, st, *x);
                let (st1, r) = s_eval(g, st, *x);
                if let Ok(v) = r {
                    lemma_nn_set(st1, name, v);
                    lemma_nn_trans(st.scopes, st1.scopes, s_set(st1, name, v).0.scopes, st.scopes.len() as int, st.scopes.len() as int);
                }
            },
            _ => {},
        }
    }
}

proof fn lemma_names_list(f: nat, st: IState, es: Seq<SExpr>, i: nat, acc: Seq<SValue>)
    requires
        st.scopes.len() >= 1,
    ensures
        no_new_names(st.scopes, s_eval_list(f, st, es, i, acc).0.scopes, st.scopes.len() as int),
    decreases f, 1int,
{
    if f > 0 && i < es.len() {
        let g = (f - 1) as nat;
        lemma_names_eval(g, st, es[i as int]);
        lemma_balance_eval(g, st, es[i as int]);
        let (st1, r) = s_eval(g, st, es[i as int]);
        if let Ok(v) = r {
            lemma_names_list(g, st1, es, i + 1, acc.push(v));
            lemma_nn_trans(st.scopes, st1.scopes, s_eval_list(g, st1, es, i + 1, acc.push(v)).0.scopes, st.scopes.len() as int, st.scopes.len() as int);
        }
    }
}

proof fn lemma_names_binary(f: nat, st: IState, l: SExpr, op: Seq<char>, r: SExpr)
    requires
        st.scopes.len() >= 1,
    ensures
        no_new_names(st.scopes, s_binary(f, st, l, op, r).0.scopes, st.scopes.len() as int),
    decreases f, 1int,
{
    if f > 0 {
        let g = (f - 1) as nat;
        lemma_names_eval(g, st, l);
        lemma_balance_eval(g, st, l);
        let (st1, lr) = s_eval(g, st, l);
        lemma_names_eval(g, st1, r);
        lemma_nn_trans(st.scopes, st1.scopes, s_eval(g, st1, r).0.scopes, st.scopes.len() as int, st.scopes.len() as int);
    }
}

proof fn lemma_names_call(f: nat, st: IState, name: Seq<char>, args: Seq<SExpr>)
    requires
        st.scopes.len() >= 1,
    ensures
        no_new_names(st.scopes, s_call(f, st, name, args).0.scopes, st.scopes.len() as int),
    decreases f, 1int,
{
    if f > 0 {
        let g = (f - 1) as nat;
        let n = st.scopes.len() as int;
        lemma_names_list(g, st, args, 0, seq![]);
        lemma_balance_list(g, st, args, 0, seq![]);
        if let Some(SValue::Function(params, body)) = env_lookup(st.scopes, name) {
            if params.len() == args.len() {
                let (st1, ar) = s_eval_list(g, st, args, 0, seq![]);
                if let Ok(vals) = ar {
                    if st1.depth < usize::MAX {
                        let sc = st1.scopes.push(Map::empty());
                        lemma_nn_enter(st1);
                        lemma_nn_bind(sc, params, vals, params.len());
                        let st2 = IState {
                            scopes: bind_upto(sc, params, vals, params.len()),
                            depth: st1.depth + 1,
                            out: st1.out,
                        };
                        lemma_nn_trans(st1.scopes, sc, st2.scopes, n, n);
                        lemma_names_stmts(g, st2, body, 0);
                        lemma_balance_stmts(g, st2, body, 0);
                        let st3 = s_stmts(g, st2, body, 0).0;
                        lemma_nn_trans(st1.scopes, st2.scopes, st3.scopes, n, n);
                        lemma_nn_exit(st1.scopes, st3, n);
                        lemma_nn_trans(st.scopes, st1.scopes, st_exit(st3).scopes, n, n);
                    }
                }
            }
        }
    }
}

/// A statement binds new names only in the innermost scope.
proof fn lemma_names_exec(f: nat, st: IState, s: SStmt)
    requires
        st.scopes.len() >= 1,
    ensures
        no_new_names(st.scopes, s_exec(f, st, s).0.scopes, st.scopes.len() - 1),
    decreases f, 2int,
{
    let n = st.scopes.len() as int;
    if f > 0 {
        let g = (f - 1) as nat;
        match s {
            SStmt::Let(name, e) => {
                lemma_names_eval(g, st, e);
                lemma_balance_eval(g, st, e);
                let (st1, r) = s_eval(g, st, e);
                if let Ok(v) = r {
                    lemma_nn_define(st1.scopes, name, v);
                    lemma_nn_trans(st.scopes, st1.scopes, env_define(st1.scopes, name, v), n, n - 1);
                } else {
                    lemma_nn_trans(st.scopes, st1.scopes, st1.scopes, n, n - 1);
                }
            },
            SStmt::Assign(name, e) => {
                lemma_names_eval(g, st, e);
                lemma_balance_eval(g, st, e);
                let (st1, r) = s_eval(g, st, e);
                if let Ok(v) = r {
                    lemma_nn_set(st1, name, v);
                    lemma_nn_trans(st.scopes, st1.scopes, s_set(st1, name, v).0.scopes, n, n - 1);
                } else {
                    lemma_nn_trans(st.scopes, st1.scopes, st1.scopes, n, n - 1);
                }
            },
            SStmt::If(c, cons, alt) => {
                lemma_names_if(g, st, c, cons, alt);
            },
            SStmt::While(c, body) => {
                lemma_names_while(g, st, c, body);
            },
            SStmt::For(item, list, body) => {
                lemma_names_for(g, st, item, list, body);
            },
            SStmt::Block(ss) => {
                lemma_names_block(g, st, ss);
                lemma_nn_trans(st.scopes, s_block(g, st, ss).0.scopes, s_block(g, st, ss).0.scopes, n, n - 1);
            },
            SStmt::Return(v) => {
                if let Some(e) = v {
                    lemma_names_eval(g, st, e);
                    lemma_nn_trans(st.scopes, s_eval(g, st, e).0.scopes, s_eval(g, st, e).0.scopes, n, n - 1);
                }
            },
            SStmt::Write(e) => {
                lemma_names_eval(g, st, e);
                lemma_nn_trans(st.scopes, s_eval(g, st, e).0.scopes, s_eval(g, st, e).0.scopes, n, n - 1);
            },
            SStmt::Expr(e) => {
                lemma_names_eval(g, st, e);
                lemma_nn_trans(st.scopes, s_eval(g, st, e).0.scopes, s_eval(g, st, e).0.scopes, n, n - 1);
            },
            SStmt::Func(name, params, body) => {
                lemma_nn_define(st.scopes, name, SValue::Function(params, body));
            },
        }
    }
}

proof fn lemma_names_stmts(f: nat, st: IState, ss: Seq<SStmt>, i: nat)
    requires
        st.scopes.len() >= 1,
    ensures
        no_new_names(st.scopes, s_stmts(f, st, ss, i).0.scopes, st.scopes.len() - 1),
    decreases f, 1int,
{
    if f > 0 && i < ss.len() {
        let g = (f - 1) as nat;
        let n = st.scopes.len() as int;
        lemma_names_exec(g, st, ss[i as int]);
        lemma_balance_exec(g, st, ss[i as int]);
        let (st1, r) = s_exec(g, st, ss[i as int]);
        lemma_names_stmts(g, st1, ss, i + 1);
        lemma_nn_trans(st.scopes, st1.scopes, s_stmts(g, st1, ss, i + 1).0.scopes, n - 1, n - 1);
    }
}

proof fn lemma_names_if(f: nat, st: IState, c: SExpr, cons: Seq<SStmt>, alt: Option<Seq<SStmt>>)
    requires
        st.scopes.len() >= 1,
    ensures
        no_new_names(st.scopes, s_if(f, st, c, cons, alt).0.scopes, st.scopes.len() - 1),
    decreases f, 1int,
{
    if f > 0 {
        let g = (f - 1) as nat;
        let n = st.scopes.len() as int;
        lemma_names_eval(g, st, c);
        lemma_balance_eval(g, st, c);
        let (st1, r) = s_eval(g, st, c);
        lemma_names_stmts(g, st1, cons, 0);
        lemma_nn_trans(st.scopes, st1.scopes, s_stmts(g, st1, cons, 0).0.scopes, n, n - 1);
        lemma_nn_trans(st.scopes, st1.scopes, st1.scopes, n, n - 1);
        if let Some(a) = alt {
            lemma_names_stmts(g, st1, a, 0);
            lemma_nn_trans(st.scopes, st1.scopes, s_stmts(g, st1, a, 0).0.scopes, n, n - 1);
        }
    }
}

proof fn lemma_names_while(f: nat, st: IState, c: SExpr, body: Seq<SStmt>)
    requires
        st.scopes.len() >= 1,
    ensures
        no_new_names(st.scopes, s_while(f, st, c, body).0.scopes, st.scopes.len() - 1),
    decreases f, 1int,
{
    if f > 0 {
        let g = (f - 1) as nat;
        let n = st.scopes.len() as int;
        lemma_names_eval(g, st, c);
        lemma_balance_eval(g, st, c);
        let (st1, r) = s_eval(g, st, c);
        lemma_nn_trans(st.scopes, st1.scopes, st1.scopes, n, n - 1);
        lemma_names_stmts(g, st1, body, 0);
        lemma_balance_stmts(g, st1, body, 0);
        let (st2, br) = s_stmts(g, st1, body, 0);
        lemma_nn_trans(st.scopes, st1.scopes, st2.scopes, n, n - 1);
        lemma_names_while(g, st2, c, body);
        lemma_nn_trans(st.scopes, st2.scopes, s_while(g, st2, c, body).0.scopes, n - 1, n - 1);
    }
}

proof fn lemma_names_for(f: nat, st: IState, item: Seq<char>, list: SExpr, body: Seq<SStmt>)
    requires
        st.scopes.len() >= 1,
    ensures
        no_new_names(st.scopes, s_for(f, st, item, list, body).0.scopes, st.scopes.len() - 1),
    decreases f, 1int,
{
    if f > 0 {
        let g = (f - 1) as nat;
        let n = st.scopes.len() as int;
        lemma_names_eval(g, st, list);
        lemma_balance_eval(g, st, list);
        let (st1, r) = s_eval(g, st, list);
        lemma_nn_trans(st.scopes, st1.scopes, st1.scopes, n, n - 1);
        if let Ok(SValue::Array(vs)) = r {
            let st0 = st_enter(st1);
            lemma_nn_enter(st1);
            lemma_names_for_iter(g, st0, item, vs, 0, body);
            lemma_balance_for_iter(g, st0, item, vs, 0, body);
            let st2 = s_for_iter(g, st0, item, vs, 0, body).0;
            lemma_nn_trans(st1.scopes, st0.scopes, st2.scopes, n, n);
            lemma_nn_exit(st1.scopes, st2, n);
            lemma_nn_trans(st.scopes, st1.scopes, st_exit(st2).scopes, n, n);
            lemma_nn_trans(st.scopes, st_exit(st2).scopes, st_exit(st2).scopes, n, n - 1);
        }
    }
}

proof fn lemma_names_for_iter(f: nat, st: IState, item: Seq<char>, vs: Seq<SValue>, k: nat, body: Seq<SStmt>)
    requires
        st.scopes.len() >= 1,
    ensures
        no_new_names(st.scopes, s_for_iter(f, st, item, vs, k, body).0.scopes, st.scopes.len() - 1),
    decreases f, 1int,
{
    if f > 0 && k < vs.len() {
        let g = (f - 1) as nat;
        let n = st.scopes.len() as int;
        let st0 = st_define(st, item, vs[k as int]);
        lemma_nn_define(st.scopes, item, vs[k as int]);
        lemma_names_stmts(g, st0, body, 0);
        lemma_balance_stmts(g, st0, body, 0);
        let (st1, br) = s_stmts(g, st0, body, 0);
        lemma_nn_trans(st.scopes, st0.scopes, st1.scopes, n - 1, n - 1);
        lemma_names_for_iter(g, st1, item, vs, k + 1, body);
        lemma_nn_trans(st.scopes, st1.scopes, s_for_iter(g, st1, item, vs, k + 1, body).0.scopes, n - 1, n - 1);
    }
}

/// A block binds no new name in any scope that was there before it.
proof fn lemma_names_block(f: nat, st: IState, ss: Seq<SStmt>)
    requires
        st.scopes.len() >= 1,
    ensures
        no_new_names(st.scopes, s_block(f, st, ss).0.scopes, st.scopes.len() as int),
    decreases f, 1int,
{
    if f > 0 {
        let g = (f - 1) as nat;
        let n = st.scopes.len() as int;
        let st0 = st_enter(st);
        lemma_nn_enter(st);
        lemma_names_stmts(g, st0, ss, 0);
        lemma_balance_stmts(g, st0, ss, 0);
        let st1 = s_stmts(g, st0, ss, 0).0;
        lemma_nn_trans(st.scopes, st0.scopes, st1.scopes, n, n);
        lemma_nn_exit(st.scopes, st1, n);
    }
}

proof fn lemma_lookup_none(sc: Scopes, name: Seq<char>)
    ensures
        env_lookup(sc, name) is None <==> forall|k: int| 0 <= k < sc.len() ==> !(#[trigger] sc[k]).contains_key(name),
    decreases sc.len(),
{
    if sc.len() > 0 {
        lemma_lookup_none(sc.drop_last(), name);
        assert forall|k: int| 0 <= k < sc.len() - 1 implies #[trigger] sc.drop_last()[k] == sc[k] by {}
        if env_lookup(sc, name) is None {
            assert forall|k: int| 0 <= k < sc.len() implies !(#[trigger] sc[k]).contains_key(name) by {
                if k < sc.len() - 1 {
                    assert(sc.drop_last()[k] == sc[k]);
                }
            }
        }
        if forall|k: int| 0 <= k < sc.len() ==> !(#[trigger] sc[k]).contains_key(name) {
            assert(!sc[sc.len() - 1].contains_key(name));
            assert forall|k: int| 0 <= k < sc.len() - 1 implies !(#[trigger] sc.drop_last()[k]).contains_key(name) by {
                assert(sc.drop_last()[k] == sc[k]);
            }
        }
    }
}

/// A block, whether it ends well or not, leaves every name that was unbound
/// before it unbound after it: what it defines is gone with its scope, and
/// assignment never creates a name.
pub proof fn law_block_unbound(f: nat, st: IState, ss: Seq<SStmt>, name: Seq<char>)
    requires
        st.scopes.len() >= 1,
        env_lookup(st.scopes, name) is None,
    ensures
        env_lookup(s_block(f, st, ss).0.scopes, name) is None,
{
    let st1 = s_block(f, st, ss).0;
    lemma_names_block(f, st, ss);
    lemma_balance_block(f, st, ss);
    lemma_lookup_none(st.scopes, name);
    lemma_lookup_none(st1.scopes, name);
    assert forall|k: int| 0 <= k < st1.scopes.len() implies !(#[trigger] st1.scopes[k]).contains_key(name) by {
        if st1.scopes[k].contains_key(name) {
            assert(st.scopes[k].contains_key(name));
        }
    }
}

/// An expression that neither assigns nor calls.
pub open spec fn reads_only(e: SExpr) -> bool
    decreases e,
{
    match e {
        SExpr::Assign(_, _) => false,
        SExpr::Call(_, _) => false,
        SExpr::Unary(_, x) => reads_only(*x),
        SExpr::Binary(l, _, r) => reads_only(*l) && reads_only(*r),
        SExpr::Array(es) => forall|i: int| 0 <= i < es.len() ==> reads_only(#[trigger] es[i]),
        _ => true,
    }
}

proof fn lemma_reads_only_list(f: nat, st: IState, es: Seq<SExpr>, i: nat, acc: Seq<SValue>)
    requires
        forall|j: int| 0 <= j < es.len() ==> reads_only(#[trigger] es[j]),
    ensures
        s_eval_list(f, st, es, i, acc).0 == st,
    decreases f, 1int,
{
    if f > 0 && i < es.len() {
        let g = (f - 1) as nat;
        lemma_reads_only_eval(g, st, es[i as int]);
        let (st1, r) = s_eval(g, st, es[i as int]);
        if let Ok(v) = r {
            lemma_reads_only_list(g, st1, es, i + 1, acc.push(v));
        }
    }
}

proof fn lemma_reads_only_eval(f: nat, st: IState, e: SExpr)
    requires
        reads_only(e),
    ensures
        s_eval(f, st, e).0 == st,
    decreases f, 2int,
{
    if f > 0 {
        let g = (f - 1) as nat;
        match e {
            SExpr::Array(es) => lemma_reads_only_list(g, st, es, 0, seq![]),
            SExpr::Unary(_, x) => lemma_reads_only_eval(g, st, *x),
            SExpr::Binary(l, op, r) => {
                if g > 0 {
                    let h = (g - 1) as nat;
                    lemma_reads_only_eval(h, st, *l);
                    lemma_reads_only_eval(h, st, *r);
                    assert(s_binary(g, st, *l, op, *r).0 == st);
                }
                assert(s_eval(f, st, e) == s_binary(g, st, *l, op, *r));
            },
            _ => {},
        }
    }
}

/// Evaluating an expression that neither assigns nor calls changes nothing,
/// whether it succeeds or fails: after a failed calculation the variables
/// are as they were.
pub proof fn law_reads_do_not_write(f: nat, st: IState, e: SExpr)
    requires
        reads_only(e),
    ensures
        s_eval(f, st, e).0 == st,
{
    lemma_reads_only_eval(f, st, e);
}

/// Whether a result is the limit error.
pub open spec fn lim<T>(r: Result<T, super::error::SError>) -> bool {
    r matches Err(e) && e == super::spec::limit_err()
}

proof fn mono_eval(f: nat, g: nat, st: IState, e: SExpr)
    requires
        f <= g,
        !lim(s_eval(f, st, e).1),
    ensures
        s_eval(g, st, e) == s_eval(f, st, e),
    decreases f, 2int,
{
    let f1 = (f - 1) as nat;
    let g1 = (g - 1) as nat;
    match e {
        SExpr::Array(es) => {
            mono_list(f1, g1, st, es, 0, seq![]);
        },
        SExpr::Unary(op, x) => {
            mono_eval(f1, g1, st, *x);
        },
        SExpr::Binary(l, op, r) => {
            mono_binary(f1, g1, st, *l, op, *r);
        },
        SExpr::Call(name, args) => {
            mono_call(f1, g1, st, name, args);
        },
        SExpr::Assign(name, x) => {
            mono_eval(f1, g1, st, *x);
        },
        _ => {},
    }
}

proof fn mono_list(f: nat, g: nat, st: IState, es: Seq<SExpr>, i: nat, acc: Seq<SValue>)
    requires
        f <= g,
        !lim(s_eval_list(f, st, es, i, acc).1),
    ensures
        s_eval_list(g, st, es, i, acc) == s_eval_list(f, st, es, i, acc),
    decreases f, 1int,
{
    if i < es.len() {
        let f1 = (f - 1) as nat;
        let g1 = (g - 1) as nat;
        mono_eval(f1, g1, st, es[i as int]);
        let (st1, r) = s_eval(f1, st, es[i as int]);
        if let Ok(v) = r {
            mono_list(f1, g1, st1, es, i + 1, acc.push(v));
        }
    }
}

proof fn mono_binary(f: nat, g: nat, st: IState, l: SExpr, op: Seq<char>, r: SExpr)
    requires
        f <= g,
        !lim(s_binary(f, st, l, op, r).1),
    ensures
        s_binary(g, st, l, op, r) == s_binary(f, st, l, op, r),
    decreases f, 1int,
{
    let f1 = (f - 1) as nat;
    let g1 = (g - 1) as nat;
    mono_eval(f1, g1, st, l);
    let (st1, lr) = s_eval(f1, st, l);
    if let Ok(lv) = lr {
        if !((op == "and"@ && !truthy(lv)) || (op == "or"@ && truthy(lv))) {
            mono_eval(f1, g1, st1, r);
        }
    }
}

proof fn mono_call(f: nat, g: nat, st: IState, name: Seq<char>, args: Seq<SExpr>)
    requires
        f <= g,
        !lim(s_call(f, st, name, args).1),
    ensures
        s_call(g, st, name, args) == s_call(f, st, name, args),
    decreases f, 1int,
{
    let f1 = (f - 1) as nat;
    let g1 = (g - 1) as nat;
    if let Some(SValue::Function(params, body)) = env_lookup(st.scopes, name) {
        if params.len() == args.len() {
            mono_list(f1, g1, st, args, 0, seq![]);
            let (st1, ar) = s_eval_list(f1, st, args, 0, seq![]);
            if let Ok(vals) = ar {
                if st1.depth < usize::MAX {
                    let st2 = IState {
                        scopes: bind_upto(st1.scopes.push(Map::empty()), params, vals, params.len()),
                        depth: st1.depth + 1,
                        out: st1.out,
                    };
                    mono_stmts(f1, g1, st2, body, 0);
                }
            }
        }
    }
}

proof fn mono_exec(f: nat, g: nat, st: IState, s: SStmt)
    requires
        f <= g,
        !lim(s_exec(f, st, s).1),
    ensures
        s_exec(g, st, s) == s_exec(f, st, s),
    decreases f, 2int,
{
    let f1 = (f - 1) as nat;
    let g1 = (g - 1) as nat;
    match s {
        SStmt::Let(name, e) => mono_eval(f1, g1, st, e),
        SStmt::Assign(name, e) => mono_eval(f1, g1, st, e),
        SStmt::If(c, cons, alt) => mono_if(f1, g1, st, c, cons, alt),
        SStmt::While(c, body) => mono_while(f1, g1, st, c, body),
        SStmt::For(item, list, body) => mono_for(f1, g1, st, item, list, body),
        SStmt::Block(ss) => mono_block(f1, g1, st, ss),
        SStmt::Return(v) => {
            if let Some(e) = v {
                if st.depth != 0 {
                    mono_eval(f1, g1, st, e);
                }
            }
        },
        SStmt::Write(e) => mono_eval(f1, g1, st, e),
        SStmt::Expr(e) => mono_eval(f1, g1, st, e),
        SStmt::Func(..) => {},
    }
}

proof fn mono_stmts(f: nat, g: nat, st: IState, ss: Seq<SStmt>, i: nat)
    requires
        f <= g,
        !lim(s_stmts(f, st, ss, i).1),
    ensures
        s_stmts(g, st, ss, i) == s_stmts(f, st, ss, i),
    decreases f, 1int,
{
    if i < ss.len() {
        let f1 = (f - 1) as nat;
        let g1 = (g - 1) as nat;
        mono_exec(f1, g1, st, ss[i as int]);
        let (st1, r) = s_exec(f1, st, ss[i as int]);
        if r == Ok::<SFlow, super::error::SError>(SFlow::Continue) {
            mono_stmts(f1, g1, st1, ss, i + 1);
        }
    }
}

proof fn mono_if(f: nat, g: nat, st: IState, c: SExpr, cons: Seq<SStmt>, alt: Option<Seq<SStmt>>)
    requires
        f <= g,
        !lim(s_if(f, st, c, cons, alt).1),
    ensures
        s_if(g, st, c, cons, alt) == s_if(f, st, c, cons, alt),
    decreases f, 1int,
{
    let f1 = (f - 1) as nat;
    let g1 = (g - 1) as nat;
    mono_eval(f1, g1, st, c);
    let (st1, r) = s_eval(f1, st, c);
    if let Ok(v) = r {
        if truthy(v) {
            mono_stmts(f1, g1, st1, cons, 0);
        } else if let Some(a) = alt {
            mono_stmts(f1, g1, st1, a, 0);
        }
    }
}

proof fn mono_while(f: nat, g: nat, st: IState, c: SExpr, body: Seq<SStmt>)
    requires
        f <= g,
        !lim(s_while(f, st, c, body).1),
    ensures
        s_while(g, st, c, body) == s_while(f, st, c, body),
    decreases f, 1int,
{
    let f1 = (f - 1) as nat;
    let g1 = (g - 1) as nat;
    mono_eval(f1, g1, st, c);
    let (st1, r) = s_eval(f1, st, c);
    if let Ok(v) = r {
        if truthy(v) {
            mono_stmts(f1, g1, st1, body, 0);
            let (st2, br) = s_stmts(f1, st1, body, 0);
            if br == Ok::<SFlow, super::error::SError>(SFlow::Continue) {
                mono_while(f1, g1, st2, c, body);
            }
        }
    }
}

proof fn mono_for(f: nat, g: nat, st: IState, item: Seq<char>, list: SExpr, body: Seq<SStmt>)
    requires
        f <= g,
        !lim(s_for(f, st, item, list, body).1),
    ensures
        s_for(g, st, item, list, body) == s_for(f, st, item, list, body),
    decreases f, 1int,
{
    let f1 = (f - 1) as nat;
    let g1 = (g - 1) as nat;
    mono_eval(f1, g1, st, list);
    let (st1, r) = s_eval(f1, st, list);
    if let Ok(SValue::Array(vs)) = r {
        mono_for_iter(f1, g1, st_enter(st1), item, vs, 0, body);
    }
}

proof fn mono_for_iter(f: nat, g: nat, st: IState, item: Seq<char>, vs: Seq<SValue>, k: nat, body: Seq<SStmt>)
    requires
        f <= g,
        !lim(s_for_iter(f, st, item, vs, k, body).1),
    ensures
        s_for_iter(g, st, item, vs, k, body) == s_for_iter(f, st, item, vs, k, body),
    decreases f, 1int,
{
    if k < vs.len() {
        let f1 = (f - 1) as nat;
        let g1 = (g - 1) as nat;
        let st0 = st_define(st, item, vs[k as int]);
        mono_stmts(f1, g1, st0, body, 0);
        let (st1, br) = s_stmts(f1, st0, body, 0);
        if br == Ok::<SFlow, super::error::SError>(SFlow::Continue) {
            mono_for_iter(f1, g1, st1, item, vs, k + 1, body);
        }
    }
}

proof fn mono_block(f: nat, g: nat, st: IState, ss: Seq<SStmt>)
    requires
        f <= g,
        !lim(s_block(f, st, ss).1),
    ensures
        s_block(g, st, ss) == s_block(f, st, ss),
    decreases f, 1int,
{
    mono_stmts((f - 1) as nat, (g - 1) as nat, st_enter(st), ss, 0);
}

proof fn mono_top(f: nat, g: nat, st: IState, ss: Seq<SStmt>, i: nat, last: SValue)
    requires
        f <= g,
        !lim(s_top(f, st, ss, i, last).1),
    ensures
        s_top(g, st, ss, i, last) == s_top(f, st, ss, i, last),
    decreases f, 0int,
{
    if i < ss.len() {
        let f1 = (f - 1) as nat;
        let g1 = (g - 1) as nat;
        match ss[i as int] {
            SStmt::Expr(e) => {
                mono_eval(f1, g1, st, e);
                let (st1, r) = s_eval(f1, st, e);
                if let Ok(v) = r {
                    mono_top(f1, g1, st1, ss, i + 1, v);
                }
            },
            SStmt::If(c, cons, alt) => {
                mono_top_if(f1, g1, st, c, cons, alt, last);
                let (st2, r2) = s_top_if(f1, st, c, cons, alt, last);
                if let Ok(STop::Fell(l)) = r2 {
                    mono_top(f1, g1, st2, ss, i + 1, l);
                }
            },
            SStmt::Block(b) => {
                mono_top_block(f1, g1, st, b, last);
                let (st2, r2) = s_top_block(f1, st, b, last);
                if let Ok(STop::Fell(l)) = r2 {
                    mono_top(f1, g1, st2, ss, i + 1, l);
                }
            },
            _ => {
                mono_exec(f1, g1, st, ss[i as int]);
                let (st1, r) = s_exec(f1, st, ss[i as int]);
                if r == Ok::<SFlow, super::error::SError>(SFlow::Continue) {
                    mono_top(f1, g1, st1, ss, i + 1, last);
                }
            },
        }
    }
}

proof fn mono_top_if(
    f: nat,
    g: nat,
    st: IState,
    c: SExpr,
    cons: Seq<SStmt>,
    alt: Option<Seq<SStmt>>,
    last: SValue,
)
    requires
        f <= g,
        !lim(s_top_if(f, st, c, cons, alt, last).1),
    ensures
        s_top_if(g, st, c, cons, alt, last) == s_top_if(f, st, c, cons, alt, last),
    decreases f, 1int,
{
    mono_eval(f, g, st, c);
    let (st1, r) = s_eval(f, st, c);
    if let Ok(v) = r {
        mono_top(f, g, st1, if_branch(v, cons, alt), 0, last);
    }
}

proof fn mono_top_block(f: nat, g: nat, st: IState, b: Seq<SStmt>, last: SValue)
    requires
        f <= g,
        !lim(s_top_block(f, st, b, last).1),
    ensures
        s_top_block(g, st, b, last) == s_top_block(f, st, b, last),
    decreases f, 1int,
{
    mono_top(f, g, st_enter(st), b, 0, last);
}

/// The step budget changes no outcome but by cutting a run short: a run
/// that does not end in the limit error ends the same way, in the same
/// state, with any larger budget.
pub proof fn law_step_budget(f: nat, g: nat, st: IState, e: SExpr, s: SStmt, ss: Seq<SStmt>)
    requires
        f <= g,
    ensures
        !lim(s_eval(f, st, e).1) ==> s_eval(g, st, e) == s_eval(f, st, e),
        !lim(s_exec(f, st, s).1) ==> s_exec(g, st, s) == s_exec(f, st, s),
        !lim(s_program(f, st, ss, 0, SValue::Nil).1) ==> s_program(g, st, ss, 0, SValue::Nil) == s_program(
            f,
            st,
            ss,
            0,
            SValue::Nil,
        ),
{
    if !lim(s_eval(f, st, e).1) {
        mono_eval(f, g, st, e);
    }
    if !lim(s_exec(f, st, s).1) {
        mono_exec(f, g, st, s);
    }
    if !lim(s_program(f, st, ss, 0, SValue::Nil).1) {
        mono_top(f, g, st, ss, 0, SValue::Nil);
    }
}

/// Integers compare by their mathematical order: each of the six
/// comparison operators gives the Boolean that the order gives, so in
/// particular `a >= a` and `a <= a` hold and `a < a` and `a > a` do not.
pub proof fn law_integer_comparisons(a: i64, b: i64)
    ensures
        s_binop("<"@, SValue::Integer(a), SValue::Integer(b)) == Ok::<SValue, super::error::SError>(SValue::Boolean(a < b)),
        s_binop(">"@, SValue::Integer(a), SValue::Integer(b)) == Ok::<SValue, super::error::SError>(SValue::Boolean(a > b)),
        s_binop("<="@, SValue::Integer(a), SValue::Integer(b)) == Ok::<SValue, super::error::SError>(SValue::Boolean(a <= b)),
        s_binop(">="@, SValue::Integer(a), SValue::Integer(b)) == Ok::<SValue, super::error::SError>(SValue::Boolean(a >= b)),
        s_binop("=="@, SValue::Integer(a), SValue::Integer(b)) == Ok::<SValue, super::error::SError>(SValue::Boolean(a == b)),
        s_binop("!="@, SValue::Integer(a), SValue::Integer(b)) == Ok::<SValue, super::error::SError>(SValue::Boolean(a != b)),
{
    reveal_strlit("<");
    reveal_strlit(">");
    reveal_strlit("<=");
    reveal_strlit(">=");
    reveal_strlit("==");
    reveal_strlit("!=");
    reveal_strlit("+");
    reveal_strlit("-");
    reveal_strlit("*");
    reveal_strlit("/");
    reveal_strlit("%");
    reveal_strlit("**");
    let ops = seq!["+"@, "-"@, "*"@, "/"@, "%"@, "**"@, "=="@, "!="@, "<"@, ">"@, "<="@, ">="@];
    assert forall|i: int, j: int| 0 <= i < j < 12 implies ops[i] != ops[j] by {
        if ops[i].len() == ops[j].len() {
            if ops[i].len() == 1 {
                assert(ops[i][0] != ops[j][0]);
            } else {
                assert(ops[i][0] != ops[j][0] || ops[i][1] != ops[j][1]);
            }
        }
    }
    assert(ops[0] != ops[8] && ops[1] != ops[8] && ops[2] != ops[8] && ops[3] != ops[8] && ops[4] != ops[8]);
}

/// Integer addition, subtraction and multiplication give the exact result
/// when it fits in 64 bits, and an error when it does not.
pub proof fn law_integer_arithmetic(a: i64, b: i64)
    ensures
        i64::MIN <= a + b <= i64::MAX ==> s_binop("+"@, SValue::Integer(a), SValue::Integer(b))
            == Ok::<SValue, super::error::SError>(SValue::Integer((a + b) as i64)),
        !(i64::MIN <= a + b <= i64::MAX) ==> s_binop("+"@, SValue::Integer(a), SValue::Integer(b)) is Err,
        i64::MIN <= a - b <= i64::MAX ==> s_binop("-"@, SValue::Integer(a), SValue::Integer(b))
            == Ok::<SValue, super::error::SError>(SValue::Integer((a - b) as i64)),
        !(i64::MIN <= a - b <= i64::MAX) ==> s_binop("-"@, SValue::Integer(a), SValue::Integer(b)) is Err,
        i64::MIN <= a * b <= i64::MAX ==> s_binop("*"@, SValue::Integer(a), SValue::Integer(b))
            == Ok::<SValue, super::error::SError>(SValue::Integer((a * b) as i64)),
        !(i64::MIN <= a * b <= i64::MAX) ==> s_binop("*"@, SValue::Integer(a), SValue::Integer(b)) is Err,
{
    reveal_strlit("+");
    reveal_strlit("-");
    reveal_strlit("*");
    assert("+"@[0] != "-"@[0] && "+"@[0] != "*"@[0] && "-"@[0] != "*"@[0]);
}

/// The text that writing each value shows, in order.
pub open spec fn shown(vs: Seq<SValue>) -> Seq<Seq<char>> {
    vs.map_values(|v: SValue| display(v))
}

/// A `for` loop visits the array from its first element to its last:
/// iteration `k` binds the item to element `k`, so a loop whose body writes
/// the item writes the elements in array order.
pub proof fn law_for_visits_in_order(f: nat, st: IState, item: Seq<char>, vs: Seq<SValue>, k: nat)
    requires
        st.scopes.len() >= 1,
        k <= vs.len(),
        f >= vs.len() - k + 4,
    ensures
        s_for_iter(f, st, item, vs, k, seq![SStmt::Write(SExpr::Identifier(item))]).1
            == Ok::<SFlow, super::error::SError>(SFlow::Continue),
        s_for_iter(f, st, item, vs, k, seq![SStmt::Write(SExpr::Identifier(item))]).0.out
            == st.out + shown(vs.subrange(k as int, vs.len() as int)),
    decreases vs.len() - k,
{
    let body = seq![SStmt::Write(SExpr::Identifier(item))];
    if k < vs.len() {
        let g = (f - 1) as nat;
        let h = (g - 1) as nat;
        let st0 = st_define(st, item, vs[k as int]);
        law_define_then_lookup(st.scopes, item, vs[k as int], item);
        assert(s_eval((h - 1) as nat, st0, SExpr::Identifier(item)) == (st0, Ok::<SValue, super::error::SError>(vs[k as int])));
        let st1 = IState { out: st0.out.push(display(vs[k as int])), ..st0 };
        assert(s_exec(h, st0, body[0]) == (st1, Ok::<SFlow, super::error::SError>(SFlow::Continue)));
        assert(s_stmts(h, st1, body, 1) == (st1, Ok::<SFlow, super::error::SError>(SFlow::Continue)));
        assert(s_stmts(g, st0, body, 0) == (st1, Ok::<SFlow, super::error::SError>(SFlow::Continue)));
        law_for_visits_in_order(g, st1, item, vs, k + 1);
        assert(st.out + shown(vs.subrange(k as int, vs.len() as int)) =~= st1.out + shown(
            vs.subrange((k + 1) as int, vs.len() as int),
        ));
    } else {
        assert(st.out + shown(vs.subrange(k as int, vs.len() as int)) =~= st.out);
    }
}

} // verus!
