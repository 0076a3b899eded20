//! What semantic analysis decides, over the mathematical views.
use vstd::prelude::*;
use crate::text::dec;
use crate::parser::ast::{SExpr, SStmt};
use crate::native::registry::{Entries, arity_of};
use super::table::{SFunc, SSemanticError, sem_err, table_get, msg_already_declared_fn};

verus! {

/// The analyzer's state: the names declared in each scope, and the function
/// table.
pub struct AState {
    pub scopes: Seq<Seq<Seq<char>>>,
    pub table: Seq<SFunc>,
}

/// Whether some scope declares `name`.
pub open spec fn resolved(sc: Seq<Seq<Seq<char>>>, name: Seq<char>) -> bool {
    exists|i: int| 0 <= i < sc.len() && #[trigger] sc[i].contains(name)
}

pub open spec fn msg_arg_count(name: Seq<char>, expected: nat, actual: nat) -> Seq<char> {
    "Function '"@ + name + "' expects "@ + dec(expected) + " argument(s), got "@ + dec(actual)
}

/// Declares `name` in the innermost scope; declaring it twice there is an error.
pub open spec fn s_declare(st: AState, name: Seq<char>, line: usize, col: usize) -> (
    AState,
    Result<(), SSemanticError>,
) {
    if st.scopes.len() == 0 {
        (st, Err(sem_err("No scope available"@, line, col)))
    } else if st.scopes.last().contains(name) {
        (st, Err(sem_err("Symbol '"@ + name + "' already declared in this scope"@, line, col)))
    } else {
        (
            AState { scopes: st.scopes.update(st.scopes.len() - 1, st.scopes.last().push(name)), ..st },
            Ok(()),
        )
    }
}

pub open spec fn s_enter(st: AState) -> AState {
    AState { scopes: st.scopes.push(seq![]), ..st }
}

/// Leaves the innermost scope; the global scope cannot be left.
pub open spec fn s_exit(st: AState) -> (AState, Result<(), SSemanticError>) {
    if st.scopes.len() <= 1 {
        (st, Err(sem_err("Cannot exit global scope"@, 0, 0)))
    } else {
        (AState { scopes: st.scopes.drop_last(), ..st }, Ok(()))
    }
}

/// Checks a call: a built-in function by its registered arity, a declared
/// function by its parameters, a variable (which may hold a function)
/// without a check; any other name is unknown.
pub open spec fn s_check_call(st: AState, reg: Option<Entries>, name: Seq<char>, argc: nat, line: usize, col: usize) -> Result<
    (),
    SSemanticError,
> {
    let native = match reg {
        Some(e) => arity_of(e, name),
        None => None,
    };
    match native {
        Some(a) => if a == argc {
            Ok(())
        } else {
            Err(sem_err(msg_arg_count(name, a as nat, argc), line, col))
        },
        None => match table_get(st.table, name) {
            Some(f) => if argc != f.params.len() {
                Err(sem_err(msg_arg_count(name, f.params.len(), argc), line, col))
            } else {
                Ok(())
            },
            None => if resolved(st.scopes, name) {
                Ok(())
            } else {
                Err(sem_err("Unknown function '"@ + name + "'"@, line, col))
            },
        },
    }
}

/// `col + i`, saturating at the largest column.
pub open spec fn sat_add(col: usize, i: nat) -> usize {
    if col + i > usize::MAX {
        usize::MAX
    } else {
        (col + i) as usize
    }
}

/// Analyzes an expression found at `line` and `col`.
pub open spec fn s_an_expr(st: AState, reg: Option<Entries>, e: SExpr, line: usize, col: usize) -> (
    AState,
    Result<(), SSemanticError>,
)
    decreases e, 0int,
{
    match e {
        SExpr::Identifier(name) => if !resolved(st.scopes, name) {
            (st, Err(sem_err("Undeclared identifier '"@ + name + "'"@, line, col)))
        } else {
            (st, Ok(()))
        },
        SExpr::Integer(_) => (st, Ok(())),
        SExpr::Str(_) => (st, Ok(())),
        SExpr::Boolean(_) => (st, Ok(())),
        SExpr::Nil => (st, Ok(())),
        SExpr::Array(es) => s_an_list(st, reg, es, 0, line, col, true),
        SExpr::Unary(_, x) => s_an_expr(st, reg, *x, line, col),
        SExpr::Binary(l, _, r) => {
            let (s1, a) = s_an_expr(st, reg, *l, line, col);
            match a {
                Ok(_) => s_an_expr(s1, reg, *r, line, col),
                Err(_) => (s1, a),
            }
        },
        SExpr::Call(name, args) => match s_check_call(st, reg, name, args.len(), line, col) {
            Err(er) => (st, Err(er)),
            Ok(_) => s_an_list(st, reg, args, 0, line, col, false),
        },
        SExpr::Assign(name, x) => if !resolved(st.scopes, name) {
            let (s1, d) = s_declare(st, name, line, col);
            match d {
                Ok(_) => s_an_expr(s1, reg, *x, line, col),
                Err(_) => (s1, d),
            }
        } else {
            s_an_expr(st, reg, *x, line, col)
        },
    }
}

/// Analyzes `es[i..]`; array elements are placed at successive columns.
pub open spec fn s_an_list(st: AState, reg: Option<Entries>, es: Seq<SExpr>, i: nat, line: usize, col: usize, shift: bool) -> (
    AState,
    Result<(), SSemanticError>,
)
    decreases es, es.len() - i,
{
    if i >= es.len() {
        (st, Ok(()))
    } else {
        let c = if shift { sat_add(col, i) } else { col };
        let (s1, a) = s_an_expr(st, reg, es[i as int], line, c);
        match a {
            Ok(_) => s_an_list(s1, reg, es, i + 1, line, col, shift),
            Err(_) => (s1, a),
        }
    }
}

/// Analyzes a statement. A function is recorded in the table of functions
/// and declared in the current scope; a second function of the same name is
/// an error at the outermost scope, and in a nested scope shadows the first
/// (declared there, while the table keeps the first).
pub open spec fn s_an_stmt(st: AState, reg: Option<Entries>, s: SStmt) -> (AState, Result<(), SSemanticError>)
    decreases s, 0int,
{
    match s {
        SStmt::Let(name, v) => {
            let (s1, a) = s_an_expr(st, reg, v, 1, 1);
            match a {
                Ok(_) => s_declare(s1, name, 1, 1),
                Err(_) => (s1, a),
            }
        },
        SStmt::Expr(e) => s_an_expr(st, reg, e, 1, 1),
        SStmt::Block(ss) => {
            let (s1, a) = s_an_stmts(s_enter(st), reg, ss, 0);
            match a {
                Ok(_) => s_exit(s1),
                Err(_) => (s1, a),
            }
        },
        SStmt::If(c, cons, alt) => {
            let (s1, a) = s_an_expr(st, reg, c, 1, 1);
            match a {
                Err(_) => (s1, a),
                Ok(_) => {
                    let (s2, b) = s_an_stmts(s1, reg, cons, 0);
                    match b {
                        Err(_) => (s2, b),
                        Ok(_) => match alt {
                            Some(x) => s_an_stmts(s2, reg, x, 0),
                            None => (s2, Ok(())),
                        },
                    }
                },
            }
        },
        SStmt::While(c, body) => {
            let (s1, a) = s_an_expr(st, reg, c, 1, 1);
            match a {
                Err(_) => (s1, a),
                Ok(_) => s_an_stmts(s1, reg, body, 0),
            }
        },
        SStmt::For(item, list, body) => {
            let (s1, d) = s_declare(s_enter(st), item, 1, 1);
            match d {
                Err(_) => (s1, d),
                Ok(_) => {
                    let (s2, a) = s_an_expr(s1, reg, list, 1, 1);
                    match a {
                        Err(_) => (s2, a),
                        Ok(_) => {
                            let (s3, b) = s_an_stmts(s2, reg, body, 0);
                            match b {
                                Err(_) => (s3, b),
                                Ok(_) => s_exit(s3),
                            }
                        },
                    }
                },
            }
        },
        SStmt::Func(name, params, body) => if table_get(st.table, name) is Some {
            if st.scopes.len() > 1 {
                s_declare(st, name, 1, 1)
            } else {
                (st, Err(sem_err(msg_already_declared_fn(name), 0, 0)))
            }
        } else {
            s_declare(
                AState { table: st.table.push(SFunc { name, params, body }), ..st },
                name,
                1,
                1,
            )
        },
        _ => (st, Ok(())),
    }
}

/// Analyzes `ss[i..]` in order, stopping at the first error.
pub open spec fn s_an_stmts(st: AState, reg: Option<Entries>, ss: Seq<SStmt>, i: nat) -> (
    AState,
    Result<(), SSemanticError>,
)
    decreases ss, ss.len() - i,
{
    if i >= ss.len() {
        (st, Ok(()))
    } else {
        let (s1, a) = s_an_stmt(st, reg, ss[i as int]);
        match a {
            Ok(_) => s_an_stmts(s1, reg, ss, i + 1),
            Err(_) => (s1, a),
        }
    }
}

} // verus!
