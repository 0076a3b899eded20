//! An immutable registry of built-in functions and its builder.
use vstd::prelude::*;
use vstd::string::StringExecFns;
use crate::text::{dec, usize_to_string, concat3};
use super::function::{NativeFunction, NativeFunctionError, MAX_NATIVE_ARITY};

verus! {

broadcast use vstd::std_specs::vec::group_vec_axioms;

/// The registered functions, as names with arities, in registration order.
pub type Entries = Seq<(Seq<char>, usize)>;

pub open spec fn entries_v(s: Seq<NativeFunction>) -> Entries {
    s.map_values(|f: NativeFunction| (f.name@, f.arity))
}

/// No name occurs twice.
pub open spec fn names_distinct(e: Entries) -> bool {
    forall|i: int, j: int| 0 <= i < j < e.len() ==> e[i].0 != e[j].0
}

/// The arity registered under `name`, if any.
pub open spec fn arity_of(e: Entries, name: Seq<char>) -> Option<usize>
    decreases e.len(),
{
    if e.len() == 0 {
        None
    } else if e.last().0 == name {
        Some(e.last().1)
    } else {
        arity_of(e.drop_last(), name)
    }
}

/// An immutable registry of built-in functions.
#[derive(Debug, Clone, PartialEq, Eq)]
pub struct NativeFunctionRegistry {
    functions: Vec<NativeFunction>,
}

/// Builds a registry, rejecting duplicate names.
#[derive(Debug, Default)]
pub struct NativeFunctionRegistryBuilder {
    functions: Vec<NativeFunction>,
}

/// A call of a built-in function that does not fit the registry.
#[derive(Debug, Clone, PartialEq, Eq)]
pub enum NativeFunctionValidationError {
    FunctionNotFound { name: String, line: usize, column: usize },
    WrongArgumentCount { name: String, expected: usize, actual: usize, line: usize, column: usize },
}

/// The text of a validation error.
pub open spec fn validation_text(e: NativeFunctionValidationError) -> Seq<char> {
    match e {
        NativeFunctionValidationError::FunctionNotFound { name, .. } => "Unknown function '"@ + name@
            + "'"@,
        NativeFunctionValidationError::WrongArgumentCount { name, expected, actual, .. } => "Function '"@
            + name@ + "' expects "@ + dec(expected as nat) + " argument(s), got "@ + dec(actual as nat),
    }
}

impl NativeFunctionValidationError {
    /// The text of this error.
    pub fn to_display_string(&self) -> (r: String)
        ensures
            r@ == validation_text(*self),
    {
        match self {
            NativeFunctionValidationError::FunctionNotFound { name, .. } => concat3(
                "Unknown function '",
                name.as_str(),
                "'",
            ),
            NativeFunctionValidationError::WrongArgumentCount { name, expected, actual, .. } => {
                let head = concat3("Function '", name.as_str(), "' expects ");
                let e = usize_to_string(*expected);
                let a = usize_to_string(*actual);
                let mut out = concat3(head.as_str(), e.as_str(), " argument(s), got ");
                out.append(a.as_str());
                out
            },
        }
    }
}

/// The position of the last function named `name`.
fn position(fs: &Vec<NativeFunction>, name: &str) -> (r: Option<usize>)
    ensures
        match r {
            Some(i) => i < fs@.len() && fs@[i as int].name@ == name@ && arity_of(entries_v(fs@), name@)
                == Some(fs@[i as int].arity),
            None => arity_of(entries_v(fs@), name@) is None,
        },
{
    let key = String::from_str(name);
    let mut i: usize = fs.len();
    assert(fs@.subrange(0, fs@.len() as int) =~= fs@);
    while i > 0
        invariant
            i <= fs@.len(),
            key@ == name@,
            arity_of(entries_v(fs@), name@) == arity_of(entries_v(fs@.subrange(0, i as int)), name@),
        decreases i,
    {
        proof {
            assert(entries_v(fs@.subrange(0, i as int)).drop_last() =~= entries_v(fs@.subrange(0, i - 1)));
        }
        if fs[i - 1].name.eq(&key) {
            return Some(i - 1);
        }
        i = i - 1;
    }
    None
}

impl NativeFunctionRegistry {
    /// The registered functions as names with arities.
    pub closed spec fn entries(&self) -> Entries {
        entries_v(self.functions@)
    }

    /// An empty registry.
    pub fn empty() -> (r: Self)
        ensures
            r.entries() == Seq::<(Seq<char>, usize)>::empty(),
    {
        let r = Self { functions: Vec::new() };
        assert(r.entries() =~= Seq::<(Seq<char>, usize)>::empty());
        r
    }

    /// Whether `name` is registered (case-sensitive).
    pub fn is_native(&self, name: &str) -> (r: bool)
        ensures
            r == arity_of(self.entries(), name@) is Some,
    {
        position(&self.functions, name).is_some()
    }

    /// The function registered under `name`.
    pub fn lookup(&self, name: &str) -> (r: Option<&NativeFunction>)
        ensures
            match r {
                Some(f) => f.name@ == name@ && arity_of(self.entries(), name@) == Some(f.arity),
                None => arity_of(self.entries(), name@) is None,
            },
    {
        match position(&self.functions, name) {
            Some(i) => Some(&self.functions[i]),
            None => None,
        }
    }

    /// Checks that `name` is registered and takes `arg_count` arguments.
    pub fn validate_call(&self, name: &str, arg_count: usize, line: usize, column: usize) -> (r: Result<
        (),
        NativeFunctionValidationError,
    >)
        ensures
            match arity_of(self.entries(), name@) {
                None => r matches Err(NativeFunctionValidationError::FunctionNotFound { name: n, line: l, column: c })
                    && n@ == name@ && l == line && c == column,
                Some(a) => if a == arg_count {
                    r is Ok
                } else {
                    r matches Err(NativeFunctionValidationError::WrongArgumentCount { name: n, expected: e, actual: x, line: l, column: c })
                        && n@ == name@ && e == a && x == arg_count && l == line && c == column
                },
            },
    {
        let func = match self.lookup(name) {
            Some(f) => f,
            None => {
                return Err(
                    NativeFunctionValidationError::FunctionNotFound {
                        name: String::from_str(name),
                        line,
                        column,
                    },
                );
            },
        };
        if arg_count != func.arity() {
            return Err(
                NativeFunctionValidationError::WrongArgumentCount {
                    name: String::from_str(name),
                    expected: func.arity(),
                    actual: arg_count,
                    line,
                    column,
                },
            );
        }
        Ok(())
    }

    /// The number of registered functions.
    pub fn len(&self) -> (r: usize)
        ensures
            r == self.entries().len(),
    {
        self.functions.len()
    }

    /// Whether no function is registered.
    pub fn is_empty(&self) -> (r: bool)
        ensures
            r == (self.entries().len() == 0),
    {
        self.functions.len() == 0
    }

    /// The registered names, in registration order.
    pub fn function_names(&self) -> (r: Vec<String>)
        ensures
            r@.len() == self.entries().len(),
            forall|i: int| 0 <= i < r@.len() ==> #[trigger] r@[i]@ == self.entries()[i].0,
    {
        let mut out: Vec<String> = Vec::new();
        let mut i: usize = 0;
        while i < self.functions.len()
            invariant
                i <= self.functions@.len(),
                out@.len() == i,
                forall|j: int| 0 <= j < i ==> #[trigger] out@[j]@ == self.functions@[j].name@,
            decreases self.functions@.len() - i,
        {
            out.push(self.functions[i].name.clone());
            i = i + 1;
        }
        out
    }
}

impl Default for NativeFunctionRegistry {
    fn default() -> (r: Self)
        ensures
            r.entries() == Seq::<(Seq<char>, usize)>::empty(),
    {
        Self::empty()
    }
}

impl NativeFunctionRegistryBuilder {
    /// The functions registered so far.
    pub closed spec fn entries(&self) -> Entries {
        entries_v(self.functions@)
    }

    /// A builder with no functions.
    pub fn new() -> (r: Self)
        ensures
            r.entries() == Seq::<(Seq<char>, usize)>::empty(),
    {
        let r = Self { functions: Vec::new() };
        assert(r.entries() =~= Seq::<(Seq<char>, usize)>::empty());
        r
    }

    /// Registers a function; a name registered already, or an arity above
    /// `MAX_NATIVE_ARITY`, is refused and leaves the builder unchanged.
    pub fn register(&mut self, name: &str, arity: usize) -> (r: Result<&mut Self, NativeFunctionError>)
        ensures
            arity_of(old(self).entries(), name@) is Some ==> final(self).entries() == old(self).entries()
                && (r matches Err(NativeFunctionError::DuplicateRegistration { name: n }) && n@ == name@),
            arity_of(old(self).entries(), name@) is None && arity > MAX_NATIVE_ARITY
                ==> final(self).entries() == old(self).entries() && (r matches Err(
                NativeFunctionError::ArityTooLarge { name: n, arity: a, max: m },
            ) && n@ == name@ && a == arity && m == MAX_NATIVE_ARITY),
            arity_of(old(self).entries(), name@) is None && arity <= MAX_NATIVE_ARITY ==> (r matches Ok(b)
                && b.entries() == old(self).entries().push((name@, arity)) && final(self).entries()
                == final(b).entries()),
    {
        if position(&self.functions, name).is_some() {
            return Err(NativeFunctionError::DuplicateRegistration { name: String::from_str(name) });
        }
        let func = match NativeFunction::new(String::from_str(name), arity) {
            Ok(f) => f,
            Err(e) => {
                return Err(e);
            },
        };
        self.functions.push(func);
        assert(self.entries() =~= old(self).entries().push((name@, arity)));
        Ok(self)
    }

    /// The registry holding the registered functions.
    pub fn build(self) -> (r: NativeFunctionRegistry)
        ensures
            r.entries() == self.entries(),
    {
        NativeFunctionRegistry { functions: self.functions }
    }
}

} // verus!
