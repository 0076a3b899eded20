//! The description of one built-in function.
use vstd::prelude::*;
use vstd::string::StringExecFns;
use crate::text::{dec, usize_to_string, concat3};

verus! {

/// The largest arity a built-in function may have.
pub const MAX_NATIVE_ARITY: usize = 256;

/// A built-in function: its name (case-sensitive) and its arity.
#[derive(Debug, Clone, PartialEq, Eq)]
pub struct NativeFunction {
    pub name: String,
    pub arity: usize,
}

/// Errors of registering built-in functions.
#[derive(Debug, Clone, PartialEq, Eq)]
pub enum NativeFunctionError {
    /// The name is registered already.
    DuplicateRegistration { name: String },
    /// No function of that name is registered.
    FunctionNotFound { name: String },
    /// A call has the wrong number of arguments.
    WrongArgumentCount { name: String, expected: usize, actual: usize },
    /// The arity exceeds the maximum.
    ArityTooLarge { name: String, arity: usize, max: usize },
}

/// The text of a registration error.
pub open spec fn native_error_text(e: NativeFunctionError) -> Seq<char> {
    match e {
        NativeFunctionError::DuplicateRegistration { name } => "Native function '"@ + name@
            + "' is already registered"@,
        NativeFunctionError::FunctionNotFound { name } => "Unknown native function '"@ + name@ + "'"@,
        NativeFunctionError::WrongArgumentCount { name, expected, actual } => "Function '"@ + name@
            + "' expects "@ + dec(expected as nat) + " argument(s), got "@ + dec(actual as nat),
        NativeFunctionError::ArityTooLarge { name, arity, max } => "Native function '"@ + name@
            + "' has arity "@ + dec(arity as nat) + " which exceeds maximum "@ + dec(max as nat),
    }
}

impl NativeFunctionError {
    /// The text of this error.
    pub fn to_display_string(&self) -> (r: String)
        ensures
            r@ == native_error_text(*self),
    {
        match self {
            NativeFunctionError::DuplicateRegistration { name } => concat3(
                "Native function '",
                name.as_str(),
                "' is already registered",
            ),
            NativeFunctionError::FunctionNotFound { name } => concat3(
                "Unknown native function '",
                name.as_str(),
                "'",
            ),
            NativeFunctionError::WrongArgumentCount { name, expected, actual } => {
                let head = concat3("Function '", name.as_str(), "' expects ");
                let e = usize_to_string(*expected);
                let a = usize_to_string(*actual);
                let mut out = concat3(head.as_str(), e.as_str(), " argument(s), got ");
                out.append(a.as_str());
                out
            },
            NativeFunctionError::ArityTooLarge { name, arity, max } => {
                let head = concat3("Native function '", name.as_str(), "' has arity ");
                let a = usize_to_string(*arity);
                let m = usize_to_string(*max);
                let mut out = concat3(head.as_str(), a.as_str(), " which exceeds maximum ");
                out.append(m.as_str());
                out
            },
        }
    }
}

impl NativeFunction {
    /// A description of a built-in function; its arity may not exceed
    /// `MAX_NATIVE_ARITY`.
    pub fn new(name: String, arity: usize) -> (r: Result<Self, NativeFunctionError>)
        ensures
            arity <= MAX_NATIVE_ARITY ==> (r matches Ok(f) && f.name@ == name@ && f.arity == arity),
            arity > MAX_NATIVE_ARITY ==> (r matches Err(NativeFunctionError::ArityTooLarge { name: n, arity: a, max: m })
                && n@ == name@ && a == arity && m == MAX_NATIVE_ARITY),
    {
        if arity > MAX_NATIVE_ARITY {
            return Err(NativeFunctionError::ArityTooLarge { name, arity, max: MAX_NATIVE_ARITY });
        }
        Ok(Self { name, arity })
    }

    /// The expected number of arguments.
    pub fn arity(&self) -> (r: usize)
        ensures
            r == self.arity,
    {
        self.arity
    }

    /// The name.
    pub fn name(&self) -> (r: &str)
        ensures
            r@ == self.name@,
    {
        self.name.as_str()
    }
}

} // verus!
