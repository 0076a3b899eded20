//! Properties of semantic analysis that hold of every program.
use vstd::prelude::*;
use crate::parser::ast::{SExpr, SStmt};
use crate::native::registry::Entries;
use super::table::{SFunc, table_get};
use super::spec::{AState, s_declare, s_an_expr, s_an_list, s_an_stmt, s_an_stmts, s_enter, resolved};

verus! {

/// A declared function can be looked up under its name, and declaring it
/// leaves the other names as they were.
pub proof fn law_table_register_then_lookup(t: Seq<SFunc>, f: SFunc, other: Seq<char>)
    ensures
        table_get(t.push(f), f.name) == Some(f),
        other != f.name ==> table_get(t.push(f), other) == table_get(t, other),
{
    assert(t.push(f).drop_last() =~= t);
}

proof fn lemma_expr_keeps(st: AState, reg: Option<Entries>, e: SExpr, line: usize, col: usize)
    ensures
        s_an_expr(st, reg, e, line, col).0.scopes.len() == st.scopes.len(),
    decreases e, 0int,
{
    match e {
        SExpr::Array(es) => lemma_list_keeps(st, reg, es, 0, line, col, true),
        SExpr::Unary(_, x) => lemma_expr_keeps(st, reg, *x, line, col),
        SExpr::Binary(l, _, r) => {
            lemma_expr_keeps(st, reg, *l, line, col);
            let (s1, a) = s_an_expr(st, reg, *l, line, col);
            lemma_expr_keeps(s1, reg, *r, line, col);
        },
        SExpr::Call(name, args) => lemma_list_keeps(st, reg, args, 0, line, col, false),
        SExpr::Assign(name, x) => {
            let (s1, d) = s_declare(st, name, line, col);
            lemma_expr_keeps(s1, reg, *x, line, col);
            lemma_expr_keeps(st, reg, *x, line, col);
        },
        _ => {},
    }
}

proof fn lemma_list_keeps(st: AState, reg: Option<Entries>, es: Seq<SExpr>, i: nat, line: usize, col: usize, shift: bool)
    ensures
        s_an_list(st, reg, es, i, line, col, shift).0.scopes.len() == st.scopes.len(),
    decreases es, es.len() - i,
{
    if i < es.len() {
        let c = if shift { super::spec::sat_add(col, i) } else { col };
        lemma_expr_keeps(st, reg, es[i as int], line, c);
        let (s1, a) = s_an_expr(st, reg, es[i as int], line, c);
        lemma_list_keeps(s1, reg, es, i + 1, line, col, shift);
    }
}

proof fn lemma_stmt_keeps(st: AState, reg: Option<Entries>, s: SStmt)
    requires
        st.scopes.len() >= 1,
    ensures
        s_an_stmt(st, reg, s).1 is Ok ==> s_an_stmt(st, reg, s).0.scopes.len() == st.scopes.len(),
    decreases s, 0int,
{
    match s {
        SStmt::Let(name, v) => {
            lemma_expr_keeps(st, reg, v, 1, 1);
        },
        SStmt::Expr(e) => {
            lemma_expr_keeps(st, reg, e, 1, 1);
        },
        SStmt::Block(ss) => {
            lemma_stmts_keep(s_enter(st), reg, ss, 0);
        },
        SStmt::If(c, cons, alt) => {
            lemma_expr_keeps(st, reg, c, 1, 1);
            let (s1, a) = s_an_expr(st, reg, c, 1, 1);
            lemma_stmts_keep(s1, reg, cons, 0);
            let (s2, b) = s_an_stmts(s1, reg, cons, 0);
            if b is Ok {
                if let Some(x) = alt {
                    lemma_stmts_keep(s2, reg, x, 0);
                }
            }
        },
        SStmt::While(c, body) => {
            lemma_expr_keeps(st, reg, c, 1, 1);
            let (s1, a) = s_an_expr(st, reg, c, 1, 1);
            lemma_stmts_keep(s1, reg, body, 0);
        },
        SStmt::For(item, list, body) => {
            let (s1, d) = s_declare(s_enter(st), item, 1, 1);
            lemma_expr_keeps(s1, reg, list, 1, 1);
            let (s2, a) = s_an_expr(s1, reg, list, 1, 1);
            lemma_stmts_keep(s2, reg, body, 0);
        },
        _ => {},
    }
}

proof fn lemma_stmts_keep(st: AState, reg: Option<Entries>, ss: Seq<SStmt>, i: nat)
    requires
        st.scopes.len() >= 1,
    ensures
        s_an_stmts(st, reg, ss, i).1 is Ok ==> s_an_stmts(st, reg, ss, i).0.scopes.len() == st.scopes.len(),
    decreases ss, ss.len() - i,
{
    if i < ss.len() {
        lemma_stmt_keeps(st, reg, ss[i as int]);
        let (s1, a) = s_an_stmt(st, reg, ss[i as int]);
        if a is Ok {
            lemma_stmts_keep(s1, reg, ss, i + 1);
        }
    }
}

/// Analyzing an expression never changes the number of scopes, and a
/// statement list that passes analysis leaves as many scopes as it found:
/// every scope that a block or a loop opens is closed again.
pub proof fn law_analysis_keeps_scopes(st: AState, reg: Option<Entries>, ss: Seq<SStmt>, e: SExpr, line: usize, col: usize)
    requires
        st.scopes.len() >= 1,
    ensures
        s_an_expr(st, reg, e, line, col).0.scopes.len() == st.scopes.len(),
        s_an_stmts(st, reg, ss, 0).1 is Ok ==> s_an_stmts(st, reg, ss, 0).0.scopes.len() == st.scopes.len(),
{
    lemma_expr_keeps(st, reg, e, line, col);
    lemma_stmts_keep(st, reg, ss, 0);
}

/// Whether an expression reads the name `y` anywhere in it.
pub open spec fn mentions(e: SExpr, y: Seq<char>) -> bool
    decreases e,
{
    match e {
        SExpr::Identifier(n) => n == y,
        SExpr::Array(es) => exists|i: int| 0 <= i < es.len() && mentions(#[trigger] es[i], y),
        SExpr::Unary(_, x) => mentions(*x, y),
        SExpr::Binary(l, _, r) => mentions(*l, y) || mentions(*r, y),
        SExpr::Call(_, args) => exists|i: int| 0 <= i < args.len() && mentions(#[trigger] args[i], y),
        SExpr::Assign(_, x) => mentions(*x, y),
        _ => false,
    }
}

/// Whether an expression holds no assignment.
pub open spec fn assigns_nothing(e: SExpr) -> bool
    decreases e,
{
    match e {
        SExpr::Array(es) => forall|i: int| 0 <= i < es.len() ==> assigns_nothing(#[trigger] es[i]),
        SExpr::Unary(_, x) => assigns_nothing(*x),
        SExpr::Binary(l, _, r) => assigns_nothing(*l) && assigns_nothing(*r),
        SExpr::Call(_, args) => forall|i: int| 0 <= i < args.len() ==> assigns_nothing(#[trigger] args[i]),
        SExpr::Assign(_, _) => false,
        _ => true,
    }
}

proof fn lemma_declare_grows(st: AState, name: Seq<char>, line: usize, col: usize, n: Seq<char>)
    requires
        resolved(st.scopes, n),
    ensures
        resolved(s_declare(st, name, line, col).0.scopes, n),
{
    let s1 = s_declare(st, name, line, col).0;
    if s1 != st {
        let k = choose|k: int| 0 <= k < st.scopes.len() && #[trigger] st.scopes[k].contains(n);
        let j = choose|j: int| 0 <= j < st.scopes[k].len() && st.scopes[k][j] == n;
        if k == st.scopes.len() - 1 {
            assert(s1.scopes[k] == st.scopes[k].push(name));
            assert(s1.scopes[k][j] == n);
        } else {
            assert(s1.scopes[k] == st.scopes[k]);
        }
        assert(s1.scopes[k].contains(n));
    }
}

/// Analysis only adds declarations: a declared name stays declared.
proof fn lemma_expr_grows(st: AState, reg: Option<Entries>, e: SExpr, line: usize, col: usize, n: Seq<char>)
    requires
        resolved(st.scopes, n),
    ensures
        resolved(s_an_expr(st, reg, e, line, col).0.scopes, n),
    decreases e, 0int,
{
    match e {
        SExpr::Array(es) => lemma_list_grows(st, reg, es, 0, line, col, true, n),
        SExpr::Unary(_, x) => lemma_expr_grows(st, reg, *x, line, col, n),
        SExpr::Binary(l, _, r) => {
            lemma_expr_grows(st, reg, *l, line, col, n);
            let (s1, a) = s_an_expr(st, reg, *l, line, col);
            lemma_expr_grows(s1, reg, *r, line, col, n);
        },
        SExpr::Call(name, args) => lemma_list_grows(st, reg, args, 0, line, col, false, n),
        SExpr::Assign(name, x) => {
            lemma_declare_grows(st, name, line, col, n);
            let (s1, d) = s_declare(st, name, line, col);
            lemma_expr_grows(s1, reg, *x, line, col, n);
            lemma_expr_grows(st, reg, *x, line, col, n);
        },
        _ => {},
    }
}

proof fn lemma_list_grows(
    st: AState,
    reg: Option<Entries>,
    es: Seq<SExpr>,
    i: nat,
    line: usize,
    col: usize,
    shift: bool,
    n: Seq<char>,
)
    requires
        resolved(st.scopes, n),
    ensures
        resolved(s_an_list(st, reg, es, i, line, col, shift).0.scopes, n),
    decreases es, es.len() - i,
{
    if i < es.len() {
        let c = if shift { super::spec::sat_add(col, i) } else { col };
        lemma_expr_grows(st, reg, es[i as int], line, c, n);
        let (s1, a) = s_an_expr(st, reg, es[i as int], line, c);
        lemma_list_grows(s1, reg, es, i + 1, line, col, shift, n);
    }
}

proof fn lemma_expr_reads(st: AState, reg: Option<Entries>, e: SExpr, line: usize, col: usize, y: Seq<char>)
    requires
        s_an_expr(st, reg, e, line, col).1 is Ok,
        mentions(e, y),
    ensures
        resolved(s_an_expr(st, reg, e, line, col).0.scopes, y),
    decreases e, 0int,
{
    match e {
        SExpr::Array(es) => {
            let j = choose|j: int| 0 <= j < es.len() && mentions(#[trigger] es[j], y);
            lemma_list_reads(st, reg, es, 0, line, col, true, y, j);
        },
        SExpr::Unary(_, x) => lemma_expr_reads(st, reg, *x, line, col, y),
        SExpr::Binary(l, _, r) => {
            let (s1, a) = s_an_expr(st, reg, *l, line, col);
            if mentions(*l, y) {
                lemma_expr_reads(st, reg, *l, line, col, y);
                lemma_expr_grows(s1, reg, *r, line, col, y);
            } else {
                lemma_expr_reads(s1, reg, *r, line, col, y);
            }
        },
        SExpr::Call(name, args) => {
            let j = choose|j: int| 0 <= j < args.len() && mentions(#[trigger] args[j], y);
            lemma_list_reads(st, reg, args, 0, line, col, false, y, j);
        },
        SExpr::Assign(name, x) => {
            if !resolved(st.scopes, name) {
                let (s1, d) = s_declare(st, name, line, col);
                lemma_expr_reads(s1, reg, *x, line, col, y);
            } else {
                lemma_expr_reads(st, reg, *x, line, col, y);
            }
        },
        _ => {},
    }
}

proof fn lemma_list_reads(
    st: AState,
    reg: Option<Entries>,
    es: Seq<SExpr>,
    i: nat,
    line: usize,
    col: usize,
    shift: bool,
    y: Seq<char>,
    j: int,
)
    requires
        s_an_list(st, reg, es, i, line, col, shift).1 is Ok,
        i <= j < es.len(),
        mentions(es[j], y),
    ensures
        resolved(s_an_list(st, reg, es, i, line, col, shift).0.scopes, y),
    decreases es, es.len() - i,
{
    let c = if shift { super::spec::sat_add(col, i) } else { col };
    let (s1, a) = s_an_expr(st, reg, es[i as int], line, c);
    if j == i {
        lemma_expr_reads(st, reg, es[i as int], line, c, y);
        lemma_list_grows(s1, reg, es, i + 1, line, col, shift, y);
    } else {
        lemma_list_reads(s1, reg, es, i + 1, line, col, shift, y, j);
    }
}

/// An expression without assignments declares nothing.
proof fn lemma_expr_fixed(st: AState, reg: Option<Entries>, e: SExpr, line: usize, col: usize)
    requires
        assigns_nothing(e),
    ensures
        s_an_expr(st, reg, e, line, col).0.scopes == st.scopes,
    decreases e, 0int,
{
    match e {
        SExpr::Array(es) => lemma_list_fixed(st, reg, es, 0, line, col, true),
        SExpr::Unary(_, x) => lemma_expr_fixed(st, reg, *x, line, col),
        SExpr::Binary(l, _, r) => {
            lemma_expr_fixed(st, reg, *l, line, col);
            let (s1, a) = s_an_expr(st, reg, *l, line, col);
            lemma_expr_fixed(s1, reg, *r, line, col);
        },
        SExpr::Call(name, args) => lemma_list_fixed(st, reg, args, 0, line, col, false),
        _ => {},
    }
}

proof fn lemma_list_fixed(st: AState, reg: Option<Entries>, es: Seq<SExpr>, i: nat, line: usize, col: usize, shift: bool)
    requires
        forall|k: int| 0 <= k < es.len() ==> assigns_nothing(#[trigger] es[k]),
    ensures
        s_an_list(st, reg, es, i, line, col, shift).0.scopes == st.scopes,
    decreases es, es.len() - i,
{
    if i < es.len() {
        let c = if shift { super::spec::sat_add(col, i) } else { col };
        lemma_expr_fixed(st, reg, es[i as int], line, c);
        let (s1, a) = s_an_expr(st, reg, es[i as int], line, c);
        lemma_list_fixed(s1, reg, es, i + 1, line, col, shift);
    }
}

/// Every name that an expression reads, anywhere in it (the arguments of
/// calls included), is declared once the expression has passed analysis.
pub proof fn law_reads_are_declared(st: AState, reg: Option<Entries>, e: SExpr, line: usize, col: usize, y: Seq<char>)
    requires
        s_an_expr(st, reg, e, line, col).1 is Ok,
        mentions(e, y),
    ensures
        resolved(s_an_expr(st, reg, e, line, col).0.scopes, y),
{
    lemma_expr_reads(st, reg, e, line, col, y);
}

/// An expression without assignments that reads a name no scope declares
/// (in a call's argument, say) fails analysis.
pub proof fn law_undeclared_read_fails(st: AState, reg: Option<Entries>, e: SExpr, line: usize, col: usize, y: Seq<char>)
    requires
        assigns_nothing(e),
        mentions(e, y),
        !resolved(st.scopes, y),
    ensures
        s_an_expr(st, reg, e, line, col).1 is Err,
{
    lemma_expr_fixed(st, reg, e, line, col);
    if s_an_expr(st, reg, e, line, col).1 is Ok {
        lemma_expr_reads(st, reg, e, line, col, y);
    }
}

} // verus!
