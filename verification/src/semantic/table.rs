//! The table of functions declared at any scope.
use vstd::prelude::*;
use vstd::string::StringExecFns;
use crate::text::concat3;
use crate::parser::ast::{FunctionDeclaration, SStmt, names_v, stmts_v};

verus! {

broadcast use vstd::std_specs::vec::group_vec_axioms;

/// Mathematical view of a function declaration.
pub struct SFunc {
    pub name: Seq<char>,
    pub params: Seq<Seq<char>>,
    pub body: Seq<SStmt>,
}

pub open spec fn decl_v(d: FunctionDeclaration) -> SFunc {
    SFunc { name: d.name@, params: names_v(d.params@), body: stmts_v(d.body@) }
}

/// The declaration of `name`, the latest one if several.
pub open spec fn table_get(t: Seq<SFunc>, name: Seq<char>) -> Option<SFunc>
    decreases t.len(),
{
    if t.len() == 0 {
        None
    } else if t.last().name == name {
        Some(t.last())
    } else {
        table_get(t.drop_last(), name)
    }
}

/// A semantic error with its source position.
#[derive(Debug, Clone, PartialEq, Eq)]
pub struct SemanticError {
    pub message: String,
    pub line: usize,
    pub column: usize,
}

/// Mathematical view of a semantic error.
pub struct SSemanticError {
    pub message: Seq<char>,
    pub line: usize,
    pub column: usize,
}

impl View for SemanticError {
    type V = SSemanticError;

    open spec fn view(&self) -> SSemanticError {
        SSemanticError { message: self.message@, line: self.line, column: self.column }
    }
}

pub open spec fn sem_err(message: Seq<char>, line: usize, column: usize) -> SSemanticError {
    SSemanticError { message, line, column }
}

pub open spec fn msg_already_declared_fn(name: Seq<char>) -> Seq<char> {
    "Function '"@ + name + "' already declared"@
}

/// The functions declared so far, each name once.
#[derive(Debug, Clone, PartialEq)]
pub struct FunctionTable {
    functions: Vec<FunctionDeclaration>,
}

impl View for FunctionTable {
    type V = Seq<SFunc>;

    closed spec fn view(&self) -> Seq<SFunc> {
        self.functions@.map_values(|d: FunctionDeclaration| decl_v(d))
    }
}

fn position(fs: &Vec<FunctionDeclaration>, name: &str) -> (r: Option<usize>)
    ensures
        match r {
            Some(i) => i < fs@.len() && table_get(
                fs@.map_values(|d: FunctionDeclaration| decl_v(d)),
                name@,
            ) == Some(decl_v(fs@[i as int])),
            None => table_get(fs@.map_values(|d: FunctionDeclaration| decl_v(d)), name@) is None,
        },
{
    let ghost all = fs@.map_values(|d: FunctionDeclaration| decl_v(d));
    let key = String::from_str(name);
    let mut i: usize = fs.len();
    assert(all.subrange(0, all.len() as int) =~= all);
    while i > 0
        invariant
            i <= fs@.len(),
            key@ == name@,
            all == fs@.map_values(|d: FunctionDeclaration| decl_v(d)),
            table_get(all, name@) == table_get(all.subrange(0, i as int), name@),
        decreases i,
    {
        proof {
            assert(all.subrange(0, i as int).drop_last() =~= all.subrange(0, i - 1));
        }
        if fs[i - 1].name.eq(&key) {
            return Some(i - 1);
        }
        i = i - 1;
    }
    None
}

impl FunctionTable {
    /// An empty table.
    pub fn new() -> (r: Self)
        ensures
            r@ == Seq::<SFunc>::empty(),
    {
        let r = Self { functions: Vec::new() };
        assert(r@ =~= Seq::<SFunc>::empty());
        r
    }

    /// Registers a declaration; a name declared already is an error.
    pub fn register(&mut self, declaration: FunctionDeclaration) -> (r: Result<(), SemanticError>)
        ensures
            table_get(old(self)@, declaration.name@) is Some ==> (r matches Err(e) && e@ == sem_err(
                msg_already_declared_fn(declaration.name@),
                0,
                0,
            )) && final(self)@ == old(self)@,
            table_get(old(self)@, declaration.name@) is None ==> r is Ok && final(self)@ == old(
                self,
            )@.push(decl_v(declaration)),
    {
        if position(&self.functions, declaration.name.as_str()).is_some() {
            let msg = concat3("Function '", declaration.name.as_str(), "' already declared");
            return Err(SemanticError { message: msg, line: 0, column: 0 });
        }
        let ghost d = declaration;
        self.functions.push(declaration);
        assert(self@ =~= old(self)@.push(decl_v(d)));
        Ok(())
    }

    /// The declaration of `name`.
    pub fn lookup(&self, name: &str) -> (r: Option<&FunctionDeclaration>)
        ensures
            match r {
                Some(d) => table_get(self@, name@) == Some(decl_v(*d)),
                None => table_get(self@, name@) is None,
            },
    {
        match position(&self.functions, name) {
            Some(i) => Some(&self.functions[i]),
            None => None,
        }
    }

    /// Whether `name` is declared.
    pub fn contains(&self, name: &str) -> (r: bool)
        ensures
            r == table_get(self@, name@) is Some,
    {
        position(&self.functions, name).is_some()
    }

    /// The number of declared functions.
    pub fn len(&self) -> (r: usize)
        ensures
            r == self@.len(),
    {
        self.functions.len()
    }

    /// Whether no function is declared.
    pub fn is_empty(&self) -> (r: bool)
        ensures
            r == (self@.len() == 0),
    {
        self.functions.len() == 0
    }

    /// The declared names, in declaration order.
    pub fn function_names(&self) -> (r: Vec<String>)
        ensures
            r@.len() == self@.len(),
            forall|i: int| 0 <= i < r@.len() ==> #[trigger] r@[i]@ == self@[i].name,
    {
        let mut out: Vec<String> = Vec::new();
        let mut i: usize = 0;
        while i < self.functions.len()
            invariant
                i <= self.functions@.len(),
                out@.len() == i,
                forall|j: int| 0 <= j < i ==> #[trigger] out@[j]@ == self.functions@[j].name@,
            decreases self.functions@.len() - i,
        {
            out.push(self.functions[i].name.clone());
            i = i + 1;
        }
        out
    }
}

impl Default for FunctionTable {
    fn default() -> (r: Self)
        ensures
            r@ == Seq::<SFunc>::empty(),
    {
        Self::new()
    }
}

} // verus!
