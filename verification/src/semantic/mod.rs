//! Semantic analysis: scopes of declared names and the function table.
pub mod table;
pub mod spec;
pub mod laws;

use vstd::prelude::*;
use vstd::string::StringExecFns;
use std::sync::Arc;
use crate::text::{concat3, usize_to_string};
use crate::parser::ast::{
    Expression, Statement, Program, FunctionCallExpression, expr_v, exprs_v, stmt_v, stmts_v,
    lemma_exprs_v_len, lemma_exprs_v_index, lemma_stmts_v_len, lemma_stmts_v_index,
};
use crate::native::registry::{NativeFunctionRegistry, NativeFunctionValidationError, Entries};
pub use self::table::{FunctionTable, SemanticError, SSemanticError, sem_err, decl_v};
use self::spec::{
    AState, resolved, s_declare, s_enter, s_exit, s_check_call, s_an_expr, s_an_list, s_an_stmt,
    s_an_stmts, sat_add, msg_arg_count,
};

verus! {

broadcast use vstd::std_specs::vec::group_vec_axioms;

/// The kind of a declared name.
pub enum Symbol {
    Variable,
    Function,
}

pub open spec fn sem_res(r: Result<(), SemanticError>) -> Result<(), SSemanticError> {
    match r {
        Ok(_) => Ok(()),
        Err(e) => Err(e@),
    }
}

/// The semantic error for a call that the registry refuses.
fn semantic_error_from_native_validation(e: NativeFunctionValidationError) -> (r: SemanticError)
    ensures
        match e {
            NativeFunctionValidationError::FunctionNotFound { name, line, column } => r@ == sem_err(
                "Unknown function '"@ + name@ + "'"@,
                line,
                column,
            ),
            NativeFunctionValidationError::WrongArgumentCount { name, expected, actual, line, column } => r@
                == sem_err(msg_arg_count(name@, expected as nat, actual as nat), line, column),
        },
{
    match e {
        NativeFunctionValidationError::FunctionNotFound { name, line, column } => SemanticError {
            message: concat3("Unknown function '", name.as_str(), "'"),
            line,
            column,
        },
        NativeFunctionValidationError::WrongArgumentCount { name, expected, actual, line, column } => {
            SemanticError { message: arg_count_message(name.as_str(), expected, actual), line, column }
        },
    }
}

fn arg_count_message(name: &str, expected: usize, actual: usize) -> (r: String)
    ensures
        r@ == msg_arg_count(name@, expected as nat, actual as nat),
{
    let head = concat3("Function '", name, "' expects ");
    let e = usize_to_string(expected);
    let a = usize_to_string(actual);
    let mut out = concat3(head.as_str(), e.as_str(), " argument(s), got ");
    out.append(a.as_str());
    out
}

/// Checks that names are declared before use, that no scope declares a name
/// twice, and that calls fit what they call.
pub struct SemanticAnalyzer {
    scopes: Vec<Vec<String>>,
    in_function: bool,
    function_table: FunctionTable,
    native_registry: Option<Arc<NativeFunctionRegistry>>,
}

impl View for SemanticAnalyzer {
    type V = AState;

    closed spec fn view(&self) -> AState {
        AState {
            scopes: Seq::new(
                self.scopes@.len(),
                |i: int| self.scopes@[i]@.map_values(|s: String| s@),
            ),
            table: self.function_table@,
        }
    }
}

impl SemanticAnalyzer {
    /// The registered built-in functions, if a registry was given.
    pub closed spec fn registry(&self) -> Option<Entries> {
        match self.native_registry {
            Some(r) => Some(r.entries()),
            None => None,
        }
    }

    /// An analyzer with one empty global scope and no registry.
    pub fn new() -> (r: Self)
        ensures
            r@ == (AState { scopes: seq![seq![]], table: seq![] }),
            r.registry() is None,
    {
        let mut scopes: Vec<Vec<String>> = Vec::new();
        scopes.push(Vec::new());
        let r = Self {
            scopes,
            in_function: false,
            function_table: FunctionTable::new(),
            native_registry: None,
        };
        assert(r@.scopes =~~= seq![seq![]]);
        r
    }

    /// An analyzer that knows the given built-in functions.
    pub fn with_native_registry(registry: Arc<NativeFunctionRegistry>) -> (r: Self)
        ensures
            r@ == (AState { scopes: seq![seq![]], table: seq![] }),
            r.registry() == Some(registry.entries()),
    {
        let mut scopes: Vec<Vec<String>> = Vec::new();
        scopes.push(Vec::new());
        let r = Self {
            scopes,
            in_function: false,
            function_table: FunctionTable::new(),
            native_registry: Some(registry),
        };
        assert(r@.scopes =~~= seq![seq![]]);
        r
    }

    /// The function table.
    pub fn function_table(&self) -> (r: &FunctionTable)
        ensures
            r@ == self@.table,
    {
        &self.function_table
    }

    /// Opens a new, empty scope.
    pub fn enter_scope(&mut self)
        ensures
            final(self)@ == s_enter(old(self)@),
            final(self).registry() == old(self).registry(),
    {
        self.scopes.push(Vec::new());
        assert(self@.scopes =~~= old(self)@.scopes.push(seq![]));
    }

    /// Closes the innermost scope; the global scope cannot be closed.
    pub fn exit_scope(&mut self) -> (r: Result<(), SemanticError>)
        ensures
            (final(self)@, sem_res(r)) == s_exit(old(self)@),
            final(self).registry() == old(self).registry(),
    {
        if self.scopes.len() <= 1 {
            return Err(
                SemanticError { message: String::from_str("Cannot exit global scope"), line: 0, column: 0 },
            );
        }
        self.scopes.pop();
        assert(self@.scopes =~= old(self)@.scopes.drop_last());
        Ok(())
    }

    /// Declares a name in the innermost scope.
    pub fn declare_symbol(&mut self, name: &str, symbol: Symbol, line: usize, column: usize) -> (r: Result<
        (),
        SemanticError,
    >)
        ensures
            (final(self)@, sem_res(r)) == s_declare(old(self)@, name@, line, column),
            final(self).registry() == old(self).registry(),
    {
        if self.scopes.len() == 0 {
            return Err(
                SemanticError { message: String::from_str("No scope available"), line, column },
            );
        }
        let last = self.scopes.len() - 1;
        let key = String::from_str(name);
        let ghost names = self@.scopes[last as int];
        let mut k: usize = 0;
        while k < self.scopes[last].len()
            invariant
                *self == *old(self),
                last == self.scopes@.len() - 1,
                key@ == name@,
                names == self.scopes@[last as int]@.map_values(|s: String| s@),
                k <= names.len(),
                forall|j: int| 0 <= j < k ==> names[j] != name@,
            decreases names.len() - k,
        {
            if self.scopes[last][k].eq(&key) {
                assert(names[k as int] == name@);
                let msg = concat3("Symbol '", name, "' already declared in this scope");
                return Err(SemanticError { message: msg, line, column });
            }
            k = k + 1;
        }
        self.scopes[last].push(key);
        assert(self@.scopes =~~= old(self)@.scopes.update(last as int, names.push(name@)));
        Ok(())
    }

    /// Whether some scope declares the name.
    pub fn resolve_symbol(&self, name: &str) -> (r: bool)
        ensures
            r == resolved(self@.scopes, name@),
    {
        let key = String::from_str(name);
        let mut i: usize = self.scopes.len();
        while i > 0
            invariant
                i <= self.scopes@.len(),
                key@ == name@,
                forall|j: int| i <= j < self@.scopes.len() ==> !(#[trigger] self@.scopes[j]).contains(name@),
            decreases i,
        {
            i = i - 1;
            let ghost names = self@.scopes[i as int];
            let mut k: usize = 0;
            while k < self.scopes[i].len()
                invariant
                    i < self.scopes@.len(),
                    key@ == name@,
                    names == self.scopes@[i as int]@.map_values(|s: String| s@),
                    k <= names.len(),
                    forall|j: int| 0 <= j < k ==> names[j] != name@,
                decreases names.len() - k,
            {
                if self.scopes[i][k].eq(&key) {
                    assert(names[k as int] == name@);
                    assert(self@.scopes[i as int].contains(name@));
                    return true;
                }
                k = k + 1;
            }
        }
        false
    }

    fn validate_function_call(&self, call: &FunctionCallExpression, line: usize, column: usize) -> (r: Result<
        (),
        SemanticError,
    >)
        ensures
            sem_res(r) == s_check_call(
                self@,
                self.registry(),
                call.name@,
                exprs_v(call.arguments@).len(),
                line,
                column,
            ),
    {
        proof {
            lemma_exprs_v_len(call.arguments@);
        }
        let name = call.name.as_str();
        let arg_count = call.arguments.len();
        match &self.native_registry {
            Some(reg) => {
                if reg.is_native(name) {
                    return match reg.validate_call(name, arg_count, line, column) {
                        Ok(()) => Ok(()),
                        Err(e) => Err(semantic_error_from_native_validation(e)),
                    };
                }
            },
            None => {},
        }
        match self.function_table.lookup(name) {
            Some(func) => {
                let expected = func.params.len();
                assert(decl_v(*func).params.len() == expected);
                if arg_count != expected {
                    return Err(
                        SemanticError {
                            message: arg_count_message(name, expected, arg_count),
                            line,
                            column,
                        },
                    );
                }
                return Ok(());
            },
            None => {},
        }
        if self.resolve_symbol(name) {
            return Ok(());
        }
        Err(SemanticError { message: concat3("Unknown function '", name, "'"), line, column })
    }

    /// Analyzes a program, statement by statement, stopping at the first error.
    pub fn analyze_program(&mut self, program: &Program) -> (r: Result<(), SemanticError>)
        ensures
            (final(self)@, sem_res(r)) == s_an_stmts(old(self)@, old(self).registry(), stmts_v(program.statements@), 0),
            final(self).registry() == old(self).registry(),
    {
        self.analyze_statements(&program.statements)
    }

    fn analyze_statements(&mut self, ss: &Vec<Statement>) -> (r: Result<(), SemanticError>)
        ensures
            (final(self)@, sem_res(r)) == s_an_stmts(old(self)@, old(self).registry(), stmts_v(ss@), 0),
            final(self).registry() == old(self).registry(),
        decreases *ss,
    {
        let ghost sv = stmts_v(ss@);
        let ghost reg = old(self).registry();
        proof {
            lemma_stmts_v_len(ss@);
        }
        let mut i: usize = 0;
        while i < ss.len()
            invariant
                i <= ss@.len(),
                sv == stmts_v(ss@),
                sv.len() == ss@.len(),
                reg == old(self).registry(),
                self.registry() == reg,
                s_an_stmts(old(self)@, reg, sv, 0) == s_an_stmts(self@, reg, sv, i as nat),
            decreases ss@.len() - i,
        {
            assert(decreases_to!(*ss => ss@));
            proof {
                lemma_stmts_v_index(ss@, i as int);
            }
            match self.analyze_statement(&ss[i]) {
                Ok(()) => {},
                Err(e) => {
                    return Err(e);
                },
            }
            i = i + 1;
        }
        Ok(())
    }

    fn analyze_statement(&mut self, stmt: &Statement) -> (r: Result<(), SemanticError>)
        ensures
            (final(self)@, sem_res(r)) == s_an_stmt(old(self)@, old(self).registry(), stmt_v(*stmt)),
            final(self).registry() == old(self).registry(),
        decreases *stmt,
    {
        match stmt {
            Statement::Let(l) => {
                match self.analyze_expression(&l.value, 1, 1) {
                    Ok(()) => {},
                    Err(e) => {
                        return Err(e);
                    },
                }
                self.declare_symbol(l.name.as_str(), Symbol::Variable, 1, 1)
            },
            Statement::Expression(e) => self.analyze_expression(e, 1, 1),
            Statement::Block(ss) => {
                assert(decreases_to!(*stmt => (*stmt)->Block_0));
                self.enter_scope();
                match self.analyze_statements(ss) {
                    Ok(()) => {},
                    Err(e) => {
                        return Err(e);
                    },
                }
                self.exit_scope()
            },
            Statement::If(i) => {
                assert(decreases_to!(*stmt => (*stmt)->If_0));
                assert(decreases_to!((*stmt)->If_0 => (*stmt)->If_0.consequence));
                match self.analyze_expression(&i.condition, 1, 1) {
                    Ok(()) => {},
                    Err(e) => {
                        return Err(e);
                    },
                }
                match self.analyze_statements(&i.consequence) {
                    Ok(()) => {},
                    Err(e) => {
                        return Err(e);
                    },
                }
                match &i.alternative {
                    Some(alt) => {
                        assert(decreases_to!((*stmt)->If_0 => (*stmt)->If_0.alternative));
                        assert(decreases_to!((*stmt)->If_0.alternative => (*stmt)->If_0.alternative->Some_0));
                        self.analyze_statements(alt)
                    },
                    None => Ok(()),
                }
            },
            Statement::While(w) => {
                assert(decreases_to!(*stmt => (*stmt)->While_0));
                assert(decreases_to!((*stmt)->While_0 => (*stmt)->While_0.body));
                match self.analyze_expression(&w.condition, 1, 1) {
                    Ok(()) => {},
                    Err(e) => {
                        return Err(e);
                    },
                }
                self.analyze_statements(&w.body)
            },
            Statement::For(f) => {
                assert(decreases_to!(*stmt => (*stmt)->For_0));
                assert(decreases_to!((*stmt)->For_0 => (*stmt)->For_0.body));
                self.enter_scope();
                match self.declare_symbol(f.item.as_str(), Symbol::Variable, 1, 1) {
                    Ok(()) => {},
                    Err(e) => {
                        return Err(e);
                    },
                }
                match self.analyze_expression(&f.list, 1, 1) {
                    Ok(()) => {},
                    Err(e) => {
                        return Err(e);
                    },
                }
                match self.analyze_statements(&f.body) {
                    Ok(()) => {},
                    Err(e) => {
                        return Err(e);
                    },
                }
                self.exit_scope()
            },
            Statement::FunctionDeclaration(fd) => {
                if self.scopes.len() > 1 && self.function_table.contains(fd.name.as_str()) {
                    return self.declare_symbol(fd.name.as_str(), Symbol::Variable, 1, 1);
                }
                match self.function_table.register(fd.deep_copy_decl()) {
                    Ok(()) => {},
                    Err(e) => {
                        return Err(e);
                    },
                }
                self.declare_symbol(fd.name.as_str(), Symbol::Variable, 1, 1)
            },
            _ => Ok(()),
        }
    }

    /// Analyzes an expression found at `line` and `column`.
    pub fn analyze_expression(&mut self, expr: &Expression, line: usize, column: usize) -> (r: Result<
        (),
        SemanticError,
    >)
        ensures
            (final(self)@, sem_res(r)) == s_an_expr(old(self)@, old(self).registry(), expr_v(*expr), line, column),
            final(self).registry() == old(self).registry(),
        decreases *expr,
    {
        match expr {
            Expression::Identifier(name) => {
                if !self.resolve_symbol(name.as_str()) {
                    let msg = concat3("Undeclared identifier '", name.as_str(), "'");
                    return Err(SemanticError { message: msg, line, column });
                }
                Ok(())
            },
            Expression::Integer(_) => Ok(()),
            Expression::String(_) => Ok(()),
            Expression::Boolean(_) => Ok(()),
            Expression::Nil => Ok(()),
            Expression::Array(es) => {
                assert(decreases_to!(*expr => (*expr)->Array_0));
                self.analyze_list(es, line, column, true)
            },
            Expression::Unary(u) => self.analyze_expression(&u.right, line, column),
            Expression::Binary(b) => {
                match self.analyze_expression(&b.left, line, column) {
                    Ok(()) => {},
                    Err(e) => {
                        return Err(e);
                    },
                }
                self.analyze_expression(&b.right, line, column)
            },
            Expression::FunctionCall(c) => {
                assert(decreases_to!(*expr => (*expr)->FunctionCall_0));
                assert(decreases_to!((*expr)->FunctionCall_0 => (*expr)->FunctionCall_0.arguments));
                match self.validate_function_call(c, line, column) {
                    Ok(()) => {},
                    Err(e) => {
                        return Err(e);
                    },
                }
                self.analyze_list(&c.arguments, line, column, false)
            },
            Expression::Assignment(a) => {
                if !self.resolve_symbol(a.name.as_str()) {
                    match self.declare_symbol(a.name.as_str(), Symbol::Variable, line, column) {
                        Ok(()) => {},
                        Err(e) => {
                            return Err(e);
                        },
                    }
                }
                self.analyze_expression(&a.value, line, column)
            },
        }
    }

    fn analyze_list(&mut self, es: &Vec<Expression>, line: usize, column: usize, shift: bool) -> (r: Result<
        (),
        SemanticError,
    >)
        ensures
            (final(self)@, sem_res(r)) == s_an_list(old(self)@, old(self).registry(), exprs_v(es@), 0, line, column, shift),
            final(self).registry() == old(self).registry(),
        decreases *es,
    {
        let ghost ev = exprs_v(es@);
        let ghost reg = old(self).registry();
        proof {
            lemma_exprs_v_len(es@);
        }
        let mut i: usize = 0;
        while i < es.len()
            invariant
                i <= es@.len(),
                ev == exprs_v(es@),
                ev.len() == es@.len(),
                reg == old(self).registry(),
                self.registry() == reg,
                s_an_list(old(self)@, reg, ev, 0, line, column, shift) == s_an_list(
                    self@,
                    reg,
                    ev,
                    i as nat,
                    line,
                    column,
                    shift,
                ),
            decreases es@.len() - i,
        {
            assert(decreases_to!(*es => es@));
            proof {
                lemma_exprs_v_index(es@, i as int);
            }
            let c = if shift {
                if column > usize::MAX - i {
                    usize::MAX
                } else {
                    column + i
                }
            } else {
                column
            };
            assert(c == (if shift { sat_add(column, i as nat) } else { column }));
            match self.analyze_expression(&es[i], line, c) {
                Ok(()) => {},
                Err(e) => {
                    return Err(e);
                },
            }
            i = i + 1;
        }
        Ok(())
    }
}

} // verus!
