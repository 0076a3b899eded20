//! The tree-walking interpreter.
pub mod value;
pub mod error;
pub mod env;
pub mod spec;
pub mod ops;
pub mod laws;

use vstd::prelude::*;
use vstd::string::StringExecFns;
use crate::text::concat3;
use crate::parser::ast::{
    Expression, Statement, IfStatement, WhileStatement, ForStatement, BinaryExpression,
    FunctionCallExpression, SStmt, expr_v, exprs_v, stmt_v, stmts_v, names_v, copy_names,
    copy_stmts, lemma_exprs_v_len, lemma_exprs_v_index, lemma_stmts_v_len, lemma_stmts_v_index,
};
pub use self::value::{Value, FunctionValue, is_truthy, values_equal, value_type_name};
use self::value::{SValue, values_v, lemma_values_v_len, lemma_values_v_index, lemma_values_v_push};
pub use self::error::{RuntimeError, RuntimeContext};
use self::error::SError;
pub use self::env::Environment;
use self::spec::{
    IState, SFlow, s_eval, s_eval_list, s_binary, s_call, s_exec, s_stmts, s_if, s_while, s_for,
    s_for_iter, s_block, s_program, s_top, s_top_if, s_top_block, STop, bind_upto,
};
use self::ops::{unary, binop, is_op};

verus! {

broadcast use vstd::std_specs::vec::group_vec_axioms;

/// How a statement ended.
#[derive(Debug, PartialEq)]
pub enum ControlFlow {
    /// Normal execution: continue with the next statement.
    Continue,
    /// `return`, with its value if it had one.
    Return(Option<Value>),
}

impl Clone for ControlFlow {
    fn clone(&self) -> Self {
        match self {
            ControlFlow::Continue => ControlFlow::Continue,
            ControlFlow::Return(None) => ControlFlow::Return(None),
            ControlFlow::Return(Some(v)) => ControlFlow::Return(Some(v.deep_copy())),
        }
    }
}

pub open spec fn flow_v(c: ControlFlow) -> SFlow {
    match c {
        ControlFlow::Continue => SFlow::Continue,
        ControlFlow::Return(None) => SFlow::Return(None),
        ControlFlow::Return(Some(v)) => SFlow::Return(Some(v@)),
    }
}

pub open spec fn res_val(r: Result<Value, RuntimeError>) -> Result<SValue, SError> {
    match r {
        Ok(v) => Ok(v@),
        Err(e) => Err(e@),
    }
}

pub open spec fn res_vals(r: Result<Vec<Value>, RuntimeError>) -> Result<Seq<SValue>, SError> {
    match r {
        Ok(v) => Ok(values_v(v@)),
        Err(e) => Err(e@),
    }
}

pub open spec fn res_top(r: Result<(Value, bool), RuntimeError>) -> Result<STop, SError> {
    match r {
        Ok(p) => if p.1 {
            Ok(STop::Returned(p.0@))
        } else {
            Ok(STop::Fell(p.0@))
        },
        Err(e) => Err(e@),
    }
}

pub open spec fn res_flow(r: Result<ControlFlow, RuntimeError>) -> Result<SFlow, SError> {
    match r {
        Ok(c) => Ok(flow_v(c)),
        Err(e) => Err(e@),
    }
}

pub open spec fn alt_v(a: Option<Vec<Statement>>) -> Option<Seq<SStmt>> {
    match a {
        Some(alt) => Some(stmts_v(alt@)),
        None => None,
    }
}

/// The step budget of one public entry point.
pub const STEP_LIMIT: u64 = 0xFFFF_FFFF_FFFF_FFFFu64;

/// The interpreter: an environment, the number of active function calls, and
/// the lines that `write` statements produced.
pub struct Interpreter {
    environment: Environment,
    function_depth: usize,
    output: Vec<String>,
}

pub open spec fn lines_v(v: Seq<String>) -> Seq<Seq<char>> {
    v.map_values(|s: String| s@)
}

impl View for Interpreter {
    type V = IState;

    closed spec fn view(&self) -> IState {
        IState {
            scopes: self.environment@,
            depth: self.function_depth as nat,
            out: lines_v(self.output@),
        }
    }
}

impl Interpreter {
    /// Well-formedness: the environment is well formed.
    pub closed spec fn wf(&self) -> bool {
        self.environment.wf()
    }

    /// A well-formed interpreter has at least the global scope.
    pub proof fn lemma_wf_has_scope(&self)
        requires
            self.wf(),
        ensures
            self@.scopes.len() >= 1,
    {
        self.environment.lemma_wf_has_scope();
    }

    /// A new interpreter with an empty global scope and no output.
    pub fn new() -> (r: Self)
        ensures
            r.wf(),
            r@ == (IState { scopes: seq![Map::empty()], depth: 0, out: seq![] }),
    {
        let r = Self { environment: Environment::new(), function_depth: 0, output: Vec::new() };
        assert(lines_v(r.output@) =~= seq![]);
        r
    }

    /// The environment.
    pub fn environment(&self) -> (r: &Environment)
        ensures
            r@ == self@.scopes,
            self.wf() ==> r.wf(),
    {
        &self.environment
    }

    /// The environment, for changing it.
    pub fn environment_mut(&mut self) -> (r: &mut Environment)
        ensures
            r@ == old(self)@.scopes,
            old(self).wf() ==> r.wf(),
            final(self)@ == (IState { scopes: final(r)@, ..old(self)@ }),
            final(self).wf() == final(r).wf(),
    {
        &mut self.environment
    }

    /// Takes the lines written so far, leaving none.
    pub fn take_output(&mut self) -> (r: Vec<String>)
        ensures
            lines_v(r@) == old(self)@.out,
            final(self)@ == (IState { out: seq![], ..old(self)@ }),
            final(self).wf() == old(self).wf(),
    {
        let mut r: Vec<String> = Vec::new();
        std::mem::swap(&mut r, &mut self.output);
        assert(lines_v(self.output@) =~= seq![]);
        r
    }

    /// Appends a written line to the output.
    pub fn emit(&mut self, line: String)
        ensures
            final(self)@ == (IState { out: old(self)@.out.push(line@), ..old(self)@ }),
            final(self).wf() == old(self).wf(),
    {
        let ghost before = self.output@;
        let ghost l = line@;
        self.output.push(line);
        assert(lines_v(self.output@) =~= lines_v(before).push(l));
    }

    /// Executes a program, each statement once: the value of the last
    /// expression statement run at the top (or in an `if` at the top), or the
    /// value of a `return`.
    pub fn execute_program(&mut self, statements: &[Statement]) -> (r: Result<Value, RuntimeError>)
        requires
            old(self).wf(),
        ensures
            final(self).wf(),
            (final(self)@, res_val(r)) == s_program(
                STEP_LIMIT as nat,
                old(self)@,
                stmts_v(statements@),
                0,
                SValue::Nil,
            ),
    {
        self.program(statements, STEP_LIMIT)
    }

    /// Executes statements in a new scope.
    pub fn execute_block(&mut self, stmts: &[Statement]) -> (r: Result<ControlFlow, RuntimeError>)
        requires
            old(self).wf(),
        ensures
            final(self).wf(),
            (final(self)@, res_flow(r)) == s_block(STEP_LIMIT as nat, old(self)@, stmts_v(stmts@)),
    {
        self.block(stmts, STEP_LIMIT)
    }

    /// Executes an `if` statement.
    pub fn execute_if_statement(&mut self, if_stmt: &IfStatement) -> (r: Result<ControlFlow, RuntimeError>)
        requires
            old(self).wf(),
        ensures
            final(self).wf(),
            (final(self)@, res_flow(r)) == s_if(
                STEP_LIMIT as nat,
                old(self)@,
                expr_v(if_stmt.condition),
                stmts_v(if_stmt.consequence@),
                alt_v(if_stmt.alternative),
            ),
    {
        self.if_stmt(if_stmt, STEP_LIMIT)
    }

    /// Executes a `while` loop.
    pub fn execute_while_loop(&mut self, while_stmt: &WhileStatement) -> (r: Result<ControlFlow, RuntimeError>)
        requires
            old(self).wf(),
        ensures
            final(self).wf(),
            (final(self)@, res_flow(r)) == s_while(
                STEP_LIMIT as nat,
                old(self)@,
                expr_v(while_stmt.condition),
                stmts_v(while_stmt.body@),
            ),
    {
        self.while_stmt(while_stmt, STEP_LIMIT)
    }

    /// Executes a `for` loop.
    pub fn execute_for_loop(&mut self, for_stmt: &ForStatement) -> (r: Result<ControlFlow, RuntimeError>)
        requires
            old(self).wf(),
        ensures
            final(self).wf(),
            (final(self)@, res_flow(r)) == s_for(
                STEP_LIMIT as nat,
                old(self)@,
                for_stmt.item@,
                expr_v(for_stmt.list),
                stmts_v(for_stmt.body@),
            ),
    {
        self.for_stmt(for_stmt, STEP_LIMIT)
    }

    /// Evaluates an expression.
    pub fn evaluate_expression(&mut self, expr: &Expression) -> (r: Result<Value, RuntimeError>)
        requires
            old(self).wf(),
        ensures
            final(self).wf(),
            (final(self)@, res_val(r)) == s_eval(STEP_LIMIT as nat, old(self)@, expr_v(*expr)),
    {
        self.eval(expr, STEP_LIMIT)
    }

    /// Evaluates an expression on behalf of the REPL.
    pub fn evaluate_expression_for_repl(&mut self, expr: &Expression) -> (r: Result<Value, RuntimeError>)
        requires
            old(self).wf(),
        ensures
            final(self).wf(),
            (final(self)@, res_val(r)) == s_eval(STEP_LIMIT as nat, old(self)@, expr_v(*expr)),
    {
        self.eval(expr, STEP_LIMIT)
    }

    fn eval(&mut self, e: &Expression, fuel: u64) -> (r: Result<Value, RuntimeError>)
        requires
            old(self).wf(),
        ensures
            final(self).wf(),
            (final(self)@, res_val(r)) == s_eval(fuel as nat, old(self)@, expr_v(*e)),
        decreases fuel,
    {
        if fuel == 0 {
            return Err(RuntimeError::execution_limit());
        }
        let g = fuel - 1;
        match e {
            Expression::Integer(n) => Ok(Value::Integer(*n)),
            Expression::String(s) => Ok(Value::String(s.clone())),
            Expression::Boolean(b) => Ok(Value::Boolean(*b)),
            Expression::Nil => Ok(Value::Nil),
            Expression::Identifier(name) => match self.environment.lookup(name.as_str()) {
                Some(v) => Ok(v.deep_copy()),
                None => {
                    let what = concat3("accessing variable '", name.as_str(), "'");
                    let ctx = RuntimeContext::new(what.as_str());
                    Err(RuntimeError::undefined_variable(name.as_str(), Some(ctx)))
                },
            },
            Expression::Array(es) => match self.eval_list(es, g) {
                Ok(vs) => Ok(Value::Array(vs)),
                Err(er) => Err(er),
            },
            Expression::Unary(u) => match self.eval(&u.right, g) {
                Ok(v) => unary(&u.operator, v),
                Err(er) => Err(er),
            },
            Expression::Binary(b) => self.binary(b, g),
            Expression::FunctionCall(c) => self.call(c, g),
            Expression::Assignment(a) => match self.eval(&a.value, g) {
                Ok(v) => {
                    let copy = v.deep_copy();
                    match self.environment.assign(a.name.as_str(), copy) {
                        Ok(()) => Ok(v),
                        Err(er) => Err(er),
                    }
                },
                Err(er) => Err(er),
            },
        }
    }

    fn eval_list(&mut self, es: &Vec<Expression>, fuel: u64) -> (r: Result<Vec<Value>, RuntimeError>)
        requires
            old(self).wf(),
        ensures
            final(self).wf(),
            (final(self)@, res_vals(r)) == s_eval_list(fuel as nat, old(self)@, exprs_v(es@), 0, seq![]),
        decreases fuel,
    {
        let ghost exs = exprs_v(es@);
        proof {
            lemma_exprs_v_len(es@);
            assert(values_v(Seq::<Value>::empty()) =~= seq![]);
        }
        let mut out: Vec<Value> = Vec::new();
        let mut i: usize = 0;
        let mut f: u64 = fuel;
        loop
            invariant
                self.wf(),
                f <= fuel,
                i <= es@.len(),
                exs == exprs_v(es@),
                exs.len() == es@.len(),
                s_eval_list(fuel as nat, old(self)@, exs, 0, seq![]) == s_eval_list(
                    f as nat,
                    self@,
                    exs,
                    i as nat,
                    values_v(out@),
                ),
            decreases f,
        {
            if f == 0 {
                return Err(RuntimeError::execution_limit());
            }
            if i >= es.len() {
                return Ok(out);
            }
            proof {
                lemma_exprs_v_index(es@, i as int);
            }
            let v = match self.eval(&es[i], f - 1) {
                Ok(v) => v,
                Err(er) => {
                    return Err(er);
                },
            };
            proof {
                lemma_values_v_push(out@, v);
            }
            out.push(v);
            i = i + 1;
            f = f - 1;
        }
    }

    fn binary(&mut self, b: &BinaryExpression, fuel: u64) -> (r: Result<Value, RuntimeError>)
        requires
            old(self).wf(),
        ensures
            final(self).wf(),
            (final(self)@, res_val(r)) == s_binary(
                fuel as nat,
                old(self)@,
                expr_v(*b.left),
                b.operator@,
                expr_v(*b.right),
            ),
        decreases fuel,
    {
        if fuel == 0 {
            return Err(RuntimeError::execution_limit());
        }
        let g = fuel - 1;
        let lv = match self.eval(&b.left, g) {
            Ok(v) => v,
            Err(er) => {
                return Err(er);
            },
        };
        let is_and = is_op(&b.operator, "and");
        let is_or = is_op(&b.operator, "or");
        let lt = is_truthy(&lv);
        if (is_and && !lt) || (is_or && lt) {
            return Ok(lv);
        }
        let rv = match self.eval(&b.right, g) {
            Ok(v) => v,
            Err(er) => {
                return Err(er);
            },
        };
        if is_and || is_or {
            return Ok(Value::Boolean(is_truthy(&rv)));
        }
        binop(&b.operator, &lv, &rv)
    }

    fn call(&mut self, c: &FunctionCallExpression, fuel: u64) -> (r: Result<Value, RuntimeError>)
        requires
            old(self).wf(),
        ensures
            final(self).wf(),
            (final(self)@, res_val(r)) == s_call(fuel as nat, old(self)@, c.name@, exprs_v(c.arguments@)),
        decreases fuel,
    {
        if fuel == 0 {
            return Err(RuntimeError::execution_limit());
        }
        let g = fuel - 1;
        let callee = match self.environment.lookup(c.name.as_str()) {
            Some(v) => v.deep_copy(),
            None => {
                let what = concat3("calling function '", c.name.as_str(), "'");
                let ctx = RuntimeContext::new(what.as_str());
                return Err(RuntimeError::undefined_function(c.name.as_str(), Some(ctx)));
            },
        };
        let func = match callee {
            Value::Function(func) => func,
            other => {
                let what = concat3("calling '", c.name.as_str(), "'");
                let ctx = RuntimeContext::new(what.as_str());
                return Err(RuntimeError::not_callable(&other, Some(ctx)));
            },
        };
        proof {
            lemma_exprs_v_len(c.arguments@);
        }
        if func.parameters.len() != c.arguments.len() {
            let what = concat3("calling function '", c.name.as_str(), "'");
            let ctx = RuntimeContext::new(what.as_str());
            return Err(
                RuntimeError::arity_mismatch(
                    c.name.as_str(),
                    func.parameters.len(),
                    c.arguments.len(),
                    Some(ctx),
                ),
            );
        }
        let ghost st0 = self@;
        let vals = match self.eval_list(&c.arguments, g) {
            Ok(vs) => vs,
            Err(er) => {
                return Err(er);
            },
        };
        if self.function_depth == usize::MAX {
            return Err(RuntimeError::execution_limit());
        }
        let ghost st1 = self@;
        let ghost params = names_v(func.parameters@);
        let ghost vv = values_v(vals@);
        proof {
            lemma_values_v_len(vals@);
            lemma_stmts_v_len(func.body@);
            spec::lemma_eval_list_len((g as nat), st0, exprs_v(c.arguments@), 0, seq![]);
        }
        let saved = self.function_depth;
        self.environment.enter_scope();
        self.function_depth = saved + 1;
        let mut k: usize = 0;
        while k < func.parameters.len()
            invariant
                self.wf(),
                k <= func.parameters@.len(),
                func.parameters@.len() == vals@.len(),
                params == names_v(func.parameters@),
                vv == values_v(vals@),
                vv.len() == vals@.len(),
                self@ == (IState {
                    scopes: bind_upto(st1.scopes.push(Map::empty()), params, vv, k as nat),
                    depth: st1.depth + 1,
                    out: st1.out,
                }),
            decreases func.parameters@.len() - k,
        {
            proof {
                lemma_values_v_index(vals@, k as int);
            }
            let name = func.parameters[k].clone();
            let arg = vals[k].deep_copy();
            self.environment.define(name, arg);
            k = k + 1;
        }
        let body_result = self.stmts(func.body.as_slice(), g);
        let _ = self.environment.exit_scope();
        self.function_depth = saved;
        match body_result {
            Ok(ControlFlow::Return(Some(v))) => Ok(v),
            Ok(_) => Ok(Value::Nil),
            Err(er) => Err(er),
        }
    }

    fn exec(&mut self, s: &Statement, fuel: u64) -> (r: Result<ControlFlow, RuntimeError>)
        requires
            old(self).wf(),
        ensures
            final(self).wf(),
            (final(self)@, res_flow(r)) == s_exec(fuel as nat, old(self)@, stmt_v(*s)),
        decreases fuel,
    {
        if fuel == 0 {
            return Err(RuntimeError::execution_limit());
        }
        let g = fuel - 1;
        match s {
            Statement::Let(l) => match self.eval(&l.value, g) {
                Ok(v) => {
                    self.environment.define(l.name.clone(), v);
                    Ok(ControlFlow::Continue)
                },
                Err(er) => Err(er),
            },
            Statement::Assignment(a) => match self.eval(&a.value, g) {
                Ok(v) => match self.environment.assign(a.name.as_str(), v) {
                    Ok(()) => Ok(ControlFlow::Continue),
                    Err(er) => Err(er),
                },
                Err(er) => Err(er),
            },
            Statement::If(i) => self.if_stmt(i, g),
            Statement::While(w) => self.while_stmt(w, g),
            Statement::For(f) => self.for_stmt(f, g),
            Statement::Block(ss) => self.block(ss.as_slice(), g),
            Statement::Return(ret) => {
                if self.function_depth == 0 {
                    return Err(RuntimeError::return_outside_function(None));
                }
                match &ret.value {
                    None => Ok(ControlFlow::Return(None)),
                    Some(e) => match self.eval(e, g) {
                        Ok(v) => Ok(ControlFlow::Return(Some(v))),
                        Err(er) => Err(er),
                    },
                }
            },
            Statement::Write(w) => match self.eval(&w.value, g) {
                Ok(v) => {
                    let line = v.to_display_string();
                    let ghost before = self.output@;
                    self.output.push(line);
                    assert(lines_v(self.output@) =~= lines_v(before).push(line@));
                    Ok(ControlFlow::Continue)
                },
                Err(er) => Err(er),
            },
            Statement::Expression(e) => match self.eval(e, g) {
                Ok(_) => Ok(ControlFlow::Continue),
                Err(er) => Err(er),
            },
            Statement::FunctionDeclaration(fd) => {
                let fv = Value::Function(
                    FunctionValue { parameters: copy_names(&fd.params), body: copy_stmts(&fd.body) },
                );
                self.environment.define(fd.name.clone(), fv);
                Ok(ControlFlow::Continue)
            },
        }
    }

    fn stmts(&mut self, ss: &[Statement], fuel: u64) -> (r: Result<ControlFlow, RuntimeError>)
        requires
            old(self).wf(),
        ensures
            final(self).wf(),
            (final(self)@, res_flow(r)) == s_stmts(fuel as nat, old(self)@, stmts_v(ss@), 0),
        decreases fuel,
    {
        let ghost sv = stmts_v(ss@);
        proof {
            lemma_stmts_v_len(ss@);
        }
        let mut i: usize = 0;
        let mut f: u64 = fuel;
        loop
            invariant
                self.wf(),
                f <= fuel,
                i <= ss@.len(),
                sv == stmts_v(ss@),
                sv.len() == ss@.len(),
                s_stmts(fuel as nat, old(self)@, sv, 0) == s_stmts(f as nat, self@, sv, i as nat),
            decreases f,
        {
            if f == 0 {
                return Err(RuntimeError::execution_limit());
            }
            if i >= ss.len() {
                return Ok(ControlFlow::Continue);
            }
            proof {
                lemma_stmts_v_index(ss@, i as int);
            }
            match self.exec(&ss[i], f - 1) {
                Ok(ControlFlow::Continue) => {},
                other => {
                    return other;
                },
            }
            i = i + 1;
            f = f - 1;
        }
    }

    fn if_stmt(&mut self, s: &IfStatement, fuel: u64) -> (r: Result<ControlFlow, RuntimeError>)
        requires
            old(self).wf(),
        ensures
            final(self).wf(),
            (final(self)@, res_flow(r)) == s_if(
                fuel as nat,
                old(self)@,
                expr_v(s.condition),
                stmts_v(s.consequence@),
                alt_v(s.alternative),
            ),
        decreases fuel,
    {
        if fuel == 0 {
            return Err(RuntimeError::execution_limit());
        }
        let g = fuel - 1;
        let v = match self.eval(&s.condition, g) {
            Ok(v) => v,
            Err(er) => {
                return Err(er);
            },
        };
        if is_truthy(&v) {
            self.stmts(s.consequence.as_slice(), g)
        } else {
            match &s.alternative {
                Some(alt) => self.stmts(alt.as_slice(), g),
                None => Ok(ControlFlow::Continue),
            }
        }
    }

    fn while_stmt(&mut self, w: &WhileStatement, fuel: u64) -> (r: Result<ControlFlow, RuntimeError>)
        requires
            old(self).wf(),
        ensures
            final(self).wf(),
            (final(self)@, res_flow(r)) == s_while(
                fuel as nat,
                old(self)@,
                expr_v(w.condition),
                stmts_v(w.body@),
            ),
        decreases fuel,
    {
        let ghost c = expr_v(w.condition);
        let ghost b = stmts_v(w.body@);
        let mut f: u64 = fuel;
        loop
            invariant
                self.wf(),
                f <= fuel,
                c == expr_v(w.condition),
                b == stmts_v(w.body@),
                s_while(fuel as nat, old(self)@, c, b) == s_while(f as nat, self@, c, b),
            decreases f,
        {
            if f == 0 {
                return Err(RuntimeError::execution_limit());
            }
            let g = f - 1;
            let v = match self.eval(&w.condition, g) {
                Ok(v) => v,
                Err(er) => {
                    return Err(er);
                },
            };
            if !is_truthy(&v) {
                return Ok(ControlFlow::Continue);
            }
            match self.stmts(w.body.as_slice(), g) {
                Ok(ControlFlow::Continue) => {},
                other => {
                    return other;
                },
            }
            f = g;
        }
    }

    fn for_stmt(&mut self, s: &ForStatement, fuel: u64) -> (r: Result<ControlFlow, RuntimeError>)
        requires
            old(self).wf(),
        ensures
            final(self).wf(),
            (final(self)@, res_flow(r)) == s_for(
                fuel as nat,
                old(self)@,
                s.item@,
                expr_v(s.list),
                stmts_v(s.body@),
            ),
        decreases fuel,
    {
        if fuel == 0 {
            return Err(RuntimeError::execution_limit());
        }
        let g = fuel - 1;
        let lv = match self.eval(&s.list, g) {
            Ok(v) => v,
            Err(er) => {
                return Err(er);
            },
        };
        let vs = match lv {
            Value::Array(vs) => vs,
            other => {
                let what = concat3("iterating over '", s.item.as_str(), "' in for loop");
                let ctx = RuntimeContext::new(what.as_str());
                return Err(RuntimeError::not_iterable(&other, Some(ctx)));
            },
        };
        self.environment.enter_scope();
        let r = self.for_iter(&s.item, &vs, s.body.as_slice(), g);
        let _ = self.environment.exit_scope();
        r
    }

    fn for_iter(&mut self, item: &String, vs: &Vec<Value>, body: &[Statement], fuel: u64) -> (r: Result<
        ControlFlow,
        RuntimeError,
    >)
        requires
            old(self).wf(),
        ensures
            final(self).wf(),
            (final(self)@, res_flow(r)) == s_for_iter(
                fuel as nat,
                old(self)@,
                item@,
                values_v(vs@),
                0,
                stmts_v(body@),
            ),
        decreases fuel,
    {
        let ghost vv = values_v(vs@);
        let ghost b = stmts_v(body@);
        proof {
            lemma_values_v_len(vs@);
        }
        let mut k: usize = 0;
        let mut f: u64 = fuel;
        loop
            invariant
                self.wf(),
                f <= fuel,
                k <= vs@.len(),
                vv == values_v(vs@),
                vv.len() == vs@.len(),
                b == stmts_v(body@),
                s_for_iter(fuel as nat, old(self)@, item@, vv, 0, b) == s_for_iter(
                    f as nat,
                    self@,
                    item@,
                    vv,
                    k as nat,
                    b,
                ),
            decreases f,
        {
            if f == 0 {
                return Err(RuntimeError::execution_limit());
            }
            if k >= vs.len() {
                return Ok(ControlFlow::Continue);
            }
            let g = f - 1;
            proof {
                lemma_values_v_index(vs@, k as int);
            }
            self.environment.define(item.clone(), vs[k].deep_copy());
            match self.stmts(body, g) {
                Ok(ControlFlow::Continue) => {},
                other => {
                    return other;
                },
            }
            k = k + 1;
            f = g;
        }
    }

    fn block(&mut self, ss: &[Statement], fuel: u64) -> (r: Result<ControlFlow, RuntimeError>)
        requires
            old(self).wf(),
        ensures
            final(self).wf(),
            (final(self)@, res_flow(r)) == s_block(fuel as nat, old(self)@, stmts_v(ss@)),
        decreases fuel,
    {
        if fuel == 0 {
            return Err(RuntimeError::execution_limit());
        }
        self.environment.enter_scope();
        let r = self.stmts(ss, fuel - 1);
        let _ = self.environment.exit_scope();
        r
    }

    #[verifier::rlimit(60)]
    fn top(&mut self, ss: &[Statement], start: Value, fuel: u64) -> (r: Result<(Value, bool), RuntimeError>)
        requires
            old(self).wf(),
        ensures
            final(self).wf(),
            (final(self)@, res_top(r)) == s_top(fuel as nat, old(self)@, stmts_v(ss@), 0, start@),
        decreases fuel, 0int,
    {
        let ghost sv = stmts_v(ss@);
        let ghost l0 = start@;
        proof {
            lemma_stmts_v_len(ss@);
        }
        let mut i: usize = 0;
        let mut f: u64 = fuel;
        let mut last = start;
        loop
            invariant
                self.wf(),
                f <= fuel,
                i <= ss@.len(),
                sv == stmts_v(ss@),
                sv.len() == ss@.len(),
                l0 == start@,
                s_top(fuel as nat, old(self)@, sv, 0, l0) == s_top(f as nat, self@, sv, i as nat, last@),
            decreases f,
        {
            if f == 0 {
                return Err(RuntimeError::execution_limit());
            }
            if i >= ss.len() {
                return Ok((last, false));
            }
            let g = f - 1;
            proof {
                lemma_stmts_v_index(ss@, i as int);
            }
            match &ss[i] {
                Statement::Expression(e) => match self.eval(e, g) {
                    Ok(v) => {
                        last = v;
                    },
                    Err(er) => {
                        return Err(er);
                    },
                },
                Statement::If(is) => match self.top_if(is, last, g) {
                    Ok((l, false)) => {
                        last = l;
                    },
                    Ok((v, true)) => {
                        return Ok((v, true));
                    },
                    Err(er) => {
                        return Err(er);
                    },
                },
                Statement::Block(b) => match self.top_block(b.as_slice(), last, g) {
                    Ok((l, false)) => {
                        last = l;
                    },
                    Ok((v, true)) => {
                        return Ok((v, true));
                    },
                    Err(er) => {
                        return Err(er);
                    },
                },
                _ => match self.exec(&ss[i], g) {
                    Ok(ControlFlow::Continue) => {},
                    Ok(ControlFlow::Return(Some(v))) => {
                        return Ok((v, true));
                    },
                    Ok(ControlFlow::Return(None)) => {
                        return Ok((Value::Nil, true));
                    },
                    Err(er) => {
                        return Err(er);
                    },
                },
            }
            i = i + 1;
            f = g;
        }
    }

    fn top_if(&mut self, is: &IfStatement, last: Value, fuel: u64) -> (r: Result<(Value, bool), RuntimeError>)
        requires
            old(self).wf(),
        ensures
            final(self).wf(),
            (final(self)@, res_top(r)) == s_top_if(
                fuel as nat,
                old(self)@,
                expr_v(is.condition),
                stmts_v(is.consequence@),
                match is.alternative {
                    Some(a) => Some(stmts_v(a@)),
                    None => None,
                },
                last@,
            ),
        decreases fuel, 1int,
    {
        let c = match self.eval(&is.condition, fuel) {
            Ok(v) => v,
            Err(er) => {
                return Err(er);
            },
        };
        if is_truthy(&c) {
            self.top(is.consequence.as_slice(), last, fuel)
        } else {
            match &is.alternative {
                Some(a) => self.top(a.as_slice(), last, fuel),
                None => {
                    let none: Vec<Statement> = Vec::new();
                    proof {
                        lemma_stmts_v_len(none@);
                        assert(stmts_v(none@) =~= Seq::<SStmt>::empty());
                    }
                    self.top(none.as_slice(), last, fuel)
                },
            }
        }
    }

/// Runs a block's statements as top-level statements in a new scope.
    pub(crate) fn top_block(&mut self, ss: &[Statement], last: Value, fuel: u64) -> (r: Result<(Value, bool), RuntimeError>)
        requires
            old(self).wf(),
        ensures
            final(self).wf(),
            (final(self)@, res_top(r)) == s_top_block(fuel as nat, old(self)@, stmts_v(ss@), last@),
        decreases fuel, 1int,
    {
        self.environment.enter_scope();
        let r = self.top(ss, last, fuel);
        let _ = self.environment.exit_scope();
        r
    }

    fn program(&mut self, ss: &[Statement], fuel: u64) -> (r: Result<Value, RuntimeError>)
        requires
            old(self).wf(),
        ensures
            final(self).wf(),
            (final(self)@, res_val(r)) == s_program(fuel as nat, old(self)@, stmts_v(ss@), 0, SValue::Nil),
    {
        match self.top(ss, Value::Nil, fuel) {
            Ok((v, _)) => Ok(v),
            Err(e) => Err(e),
        }
    }
}

impl Default for Interpreter {
    fn default() -> (r: Self)
        ensures
            r.wf(),
            r@ == (IState { scopes: seq![Map::empty()], depth: 0, out: seq![] }),
    {
        Self::new()
    }
}

} // verus!
