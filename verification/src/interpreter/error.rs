//! Run-time errors and the context they arose in.
use vstd::prelude::*;
use vstd::string::StringExecFns;
use crate::text::{dec, usize_to_string, concat2, concat3};
use super::value::{Value, SValue, kind_name, value_type_name};

verus! {

/// What the interpreter was doing when an error arose.
#[derive(Debug, Clone, PartialEq)]
pub struct RuntimeContext {
    pub operation: String,
    pub function_name: Option<String>,
    pub scope_depth: usize,
}

/// Mathematical view of a context.
pub struct SContext {
    pub operation: Seq<char>,
    pub function_name: Option<Seq<char>>,
    pub scope_depth: usize,
}

impl View for RuntimeContext {
    type V = SContext;

    open spec fn view(&self) -> SContext {
        SContext {
            operation: self.operation@,
            function_name: match self.function_name {
                Some(f) => Some(f@),
                None => None,
            },
            scope_depth: self.scope_depth,
        }
    }
}

/// A run-time error with a message, an optional source position and an
/// optional context.
#[derive(Debug, Clone, PartialEq)]
pub struct RuntimeError {
    pub message: String,
    pub line: usize,
    pub column: usize,
    pub context: Option<RuntimeContext>,
}

/// Mathematical view of a run-time error.
pub struct SError {
    pub message: Seq<char>,
    pub line: usize,
    pub column: usize,
    pub context: Option<SContext>,
}

impl View for RuntimeError {
    type V = SError;

    open spec fn view(&self) -> SError {
        SError {
            message: self.message@,
            line: self.line,
            column: self.column,
            context: match self.context {
                Some(c) => Some(c@),
                None => None,
            },
        }
    }
}

pub open spec fn ctx_view(c: Option<RuntimeContext>) -> Option<SContext> {
    match c {
        Some(c) => Some(c@),
        None => None,
    }
}

/// An error with a message and a context, at no position.
pub open spec fn serr(message: Seq<char>, context: Option<SContext>) -> SError {
    SError { message, line: 0, column: 0, context }
}

/// A context naming an operation only, at the global depth.
pub open spec fn sctx(operation: Seq<char>) -> SContext {
    SContext { operation, function_name: None, scope_depth: 1 }
}

pub open spec fn msg_undefined_variable(name: Seq<char>) -> Seq<char> {
    "Undefined variable: I don't know about any variable named '"@ + name
        + "' - did you forget to define it?"@
}

pub open spec fn msg_undefined_function(name: Seq<char>) -> Seq<char> {
    "I can't find a function called '"@ + name + "' - check the name and try again"@
}

pub open spec fn msg_not_callable(v: SValue) -> Seq<char> {
    "Attempted to call non-function value - got a "@ + kind_name(v) + " instead of a function"@
}

pub open spec fn msg_arity(name: Seq<char>, expected: nat, actual: nat) -> Seq<char> {
    "Function '"@ + name + "' expects "@ + dec(expected) + " argument"@ + (if expected == 1 {
        ""@
    } else {
        "s"@
    }) + ", but you gave "@ + dec(actual) + " - please check your function call"@
}

pub open spec fn msg_return_outside() -> Seq<char> {
    "Return statement outside of function: You can't use 'return' here - it's only allowed inside functions"@
}

pub open spec fn msg_division_by_zero() -> Seq<char> {
    "Division by zero: Cannot divide by zero - that's undefined in mathematics"@
}

pub open spec fn msg_modulo_by_zero() -> Seq<char> {
    "Modulo by zero: Cannot calculate modulo with zero - that's undefined"@
}

/// The verb that names an arithmetic operator in messages.
pub open spec fn verb(op: Seq<char>) -> Seq<char> {
    if op == "+"@ {
        "add"@
    } else if op == "-"@ {
        "subtract"@
    } else if op == "*"@ {
        "multiply"@
    } else if op == "/"@ {
        "divide"@
    } else if op == "%"@ {
        "apply modulo to"@
    } else if op == "**"@ {
        "raise"@
    } else if op == "and"@ || op == "or"@ {
        "combine"@
    } else {
        "operate on"@
    }
}

pub open spec fn msg_type_mismatch(l: SValue, r: SValue, op: Seq<char>) -> Seq<char> {
    "Cannot "@ + verb(op) + " '"@ + kind_name(l) + "' and '"@ + kind_name(r)
        + "' together - these types don't work with '"@ + op + "'"@
}

pub open spec fn msg_invalid_unary(v: SValue, op: Seq<char>) -> Seq<char> {
    "Cannot apply '"@ + op + "' to a "@ + kind_name(v)
        + " value - that operation doesn't make sense here"@
}

pub open spec fn msg_invalid_comparison(l: SValue, r: SValue, op: Seq<char>) -> Seq<char> {
    "Cannot compare '"@ + kind_name(l) + "' and '"@ + kind_name(r) + "' with '"@ + op
        + "' - these types can't be compared this way"@
}

pub open spec fn msg_not_iterable(v: SValue) -> Seq<char> {
    "Cannot iterate over a "@ + kind_name(v) + " value - for loops only work with arrays"@
}

pub open spec fn msg_overflow() -> Seq<char> {
    "That number is too big - the calculation overflowed"@
}

pub open spec fn msg_undefined_assignment(name: Seq<char>) -> Seq<char> {
    "Undefined variable: Cannot assign to '"@ + name
        + "' - this variable hasn't been defined yet. Use 'let "@ + name + " = ...' first"@
}

pub open spec fn msg_unknown_operator(op: Seq<char>, is_unary: bool) -> Seq<char> {
    "Unknown "@ + (if is_unary { "unary"@ } else { "binary"@ }) + " operator '"@ + op
        + "' - I don't know how to handle this"@
}

pub open spec fn msg_scope_exit() -> Seq<char> {
    "Cannot exit the global scope - there's nowhere else to go!"@
}

pub open spec fn msg_limit() -> Seq<char> {
    "Execution limit reached - the program ran too long or recursed too deeply"@
}

/// The text of a context: the operation, the function it ran in, and the
/// scope depth when deeper than the global scope.
pub open spec fn ctx_text(c: SContext) -> Seq<char> {
    c.operation + (match c.function_name {
        Some(f) => " in function '"@ + f + "'"@,
        None => ""@,
    }) + (if c.scope_depth > 1 {
        " (scope depth: "@ + dec(c.scope_depth as nat) + ")"@
    } else {
        ""@
    })
}

/// The text of an error: its message, its context, and its position when known.
pub open spec fn err_text(e: SError) -> Seq<char> {
    "Runtime error: "@ + e.message + (match e.context {
        Some(c) => " (while "@ + ctx_text(c) + ")"@,
        None => ""@,
    }) + (if e.line > 0 {
        " at line "@ + dec(e.line as nat) + (if e.column > 0 {
            ", column "@ + dec(e.column as nat)
        } else {
            ""@
        })
    } else {
        ""@
    })
}

impl RuntimeContext {
    /// A context naming an operation.
    pub fn new(operation: &str) -> (r: Self)
        ensures
            r@ == sctx(operation@),
    {
        Self { operation: String::from_str(operation), function_name: None, scope_depth: 1 }
    }

    /// The same context, inside the named function.
    pub fn with_function(self, name: &str) -> (r: Self)
        ensures
            r@ == (SContext { function_name: Some(name@), ..self@ }),
    {
        let mut s = self;
        s.function_name = Some(String::from_str(name));
        s
    }

    /// The same context, at the given scope depth.
    pub fn with_scope_depth(self, depth: usize) -> (r: Self)
        ensures
            r@ == (SContext { scope_depth: depth, ..self@ }),
    {
        let mut s = self;
        s.scope_depth = depth;
        s
    }

    /// The text of this context.
    pub fn to_display_string(&self) -> (r: String)
        ensures
            r@ == ctx_text(self@),
    {
        let fpart = match &self.function_name {
            Some(f) => concat3(" in function '", f.as_str(), "'"),
            None => String::from_str(""),
        };
        let dpart = if self.scope_depth > 1 {
            let d = usize_to_string(self.scope_depth);
            concat3(" (scope depth: ", d.as_str(), ")")
        } else {
            String::from_str("")
        };
        let out = concat3(self.operation.as_str(), fpart.as_str(), dpart.as_str());
        out
    }
}

impl RuntimeError {
    fn build(message: String, ctx: Option<RuntimeContext>) -> (r: Self)
        ensures
            r@ == serr(message@, ctx_view(ctx)),
    {
        Self { message, line: 0, column: 0, context: ctx }
    }

    /// An error with the given message.
    pub fn new(message: &str) -> (r: Self)
        ensures
            r@ == serr(message@, None),
    {
        Self::build(String::from_str(message), None)
    }

    /// A variable that no scope defines.
    pub fn undefined_variable(name: &str, ctx: Option<RuntimeContext>) -> (r: Self)
        ensures
            r@ == serr(msg_undefined_variable(name@), ctx_view(ctx)),
    {
        let mut m = String::from_str("Undefined variable: I don't know about any variable named '");
        m.append(name);
        m.append("' - did you forget to define it?");
        Self::build(m, ctx)
    }

    /// A call of a name that is not defined.
    pub fn undefined_function(name: &str, ctx: Option<RuntimeContext>) -> (r: Self)
        ensures
            r@ == serr(msg_undefined_function(name@), ctx_view(ctx)),
    {
        let mut m = String::from_str("I can't find a function called '");
        m.append(name);
        m.append("' - check the name and try again");
        Self::build(m, ctx)
    }

    /// A call of a value that is not a function.
    pub fn not_callable(value: &Value, ctx: Option<RuntimeContext>) -> (r: Self)
        ensures
            r@ == serr(msg_not_callable(value@), ctx_view(ctx)),
    {
        let mut m = String::from_str("Attempted to call non-function value - got a ");
        m.append(value_type_name(value));
        m.append(" instead of a function");
        Self::build(m, ctx)
    }

    /// A call with the wrong number of arguments.
    pub fn arity_mismatch(name: &str, expected: usize, actual: usize, ctx: Option<RuntimeContext>) -> (r: Self)
        ensures
            r@ == serr(msg_arity(name@, expected as nat, actual as nat), ctx_view(ctx)),
    {
        let e = usize_to_string(expected);
        let a = usize_to_string(actual);
        let plural = if expected == 1 { "" } else { "s" };
        let mut m = String::from_str("Function '");
        m.append(name);
        m.append("' expects ");
        m.append(e.as_str());
        m.append(" argument");
        m.append(plural);
        m.append(", but you gave ");
        m.append(a.as_str());
        m.append(" - please check your function call");
        Self::build(m, ctx)
    }

    /// A `return` outside any function.
    pub fn return_outside_function(ctx: Option<RuntimeContext>) -> (r: Self)
        ensures
            r@ == serr(msg_return_outside(), ctx_view(ctx)),
    {
        Self::build(
            String::from_str(
                "Return statement outside of function: You can't use 'return' here - it's only allowed inside functions",
            ),
            ctx,
        )
    }

    /// A division by zero.
    pub fn division_by_zero(ctx: Option<RuntimeContext>) -> (r: Self)
        ensures
            r@ == serr(msg_division_by_zero(), ctx_view(ctx)),
    {
        Self::build(
            String::from_str("Division by zero: Cannot divide by zero - that's undefined in mathematics"),
            ctx,
        )
    }

    /// A remainder by zero.
    pub fn modulo_by_zero(ctx: Option<RuntimeContext>) -> (r: Self)
        ensures
            r@ == serr(msg_modulo_by_zero(), ctx_view(ctx)),
    {
        Self::build(
            String::from_str("Modulo by zero: Cannot calculate modulo with zero - that's undefined"),
            ctx,
        )
    }

    /// An arithmetic operator applied to operands of the wrong types.
    pub fn type_mismatch_operation(left: &Value, right: &Value, op: &str, ctx: Option<RuntimeContext>) -> (r: Self)
        ensures
            r@ == serr(msg_type_mismatch(left@, right@, op@), ctx_view(ctx)),
    {
        let mut m = String::from_str("Cannot ");
        m.append(operation_verb(op));
        m.append(" '");
        m.append(value_type_name(left));
        m.append("' and '");
        m.append(value_type_name(right));
        m.append("' together - these types don't work with '");
        m.append(op);
        m.append("'");
        Self::build(m, ctx)
    }

    /// A unary operator applied to an operand of the wrong type.
    pub fn invalid_unary(value: &Value, op: &str, ctx: Option<RuntimeContext>) -> (r: Self)
        ensures
            r@ == serr(msg_invalid_unary(value@, op@), ctx_view(ctx)),
    {
        let mut m = String::from_str("Cannot apply '");
        m.append(op);
        m.append("' to a ");
        m.append(value_type_name(value));
        m.append(" value - that operation doesn't make sense here");
        Self::build(m, ctx)
    }

    /// An ordering comparison of values that cannot be ordered.
    pub fn invalid_comparison(left: &Value, right: &Value, op: &str, ctx: Option<RuntimeContext>) -> (r: Self)
        ensures
            r@ == serr(msg_invalid_comparison(left@, right@, op@), ctx_view(ctx)),
    {
        let mut m = String::from_str("Cannot compare '");
        m.append(value_type_name(left));
        m.append("' and '");
        m.append(value_type_name(right));
        m.append("' with '");
        m.append(op);
        m.append("' - these types can't be compared this way");
        Self::build(m, ctx)
    }

    /// A `for` loop over a value that is not an array.
    pub fn not_iterable(value: &Value, ctx: Option<RuntimeContext>) -> (r: Self)
        ensures
            r@ == serr(msg_not_iterable(value@), ctx_view(ctx)),
    {
        let mut m = String::from_str("Cannot iterate over a ");
        m.append(value_type_name(value));
        m.append(" value - for loops only work with arrays");
        Self::build(m, ctx)
    }

    /// A result that does not fit a 64-bit integer.
    pub fn integer_overflow(ctx: Option<RuntimeContext>) -> (r: Self)
        ensures
            r@ == serr(msg_overflow(), ctx_view(ctx)),
    {
        Self::build(String::from_str("That number is too big - the calculation overflowed"), ctx)
    }

    /// An assignment to a variable that no scope defines.
    pub fn undefined_variable_assignment(name: &str, ctx: Option<RuntimeContext>) -> (r: Self)
        ensures
            r@ == serr(msg_undefined_assignment(name@), ctx_view(ctx)),
    {
        let mut m = String::from_str("Undefined variable: Cannot assign to '");
        m.append(name);
        m.append("' - this variable hasn't been defined yet. Use 'let ");
        m.append(name);
        m.append(" = ...' first");
        Self::build(m, ctx)
    }

    /// An operator the interpreter does not know.
    pub fn unknown_operator(op: &str, is_unary: bool, ctx: Option<RuntimeContext>) -> (r: Self)
        ensures
            r@ == serr(msg_unknown_operator(op@, is_unary), ctx_view(ctx)),
    {
        let mut m = String::from_str("Unknown ");
        m.append(if is_unary { "unary" } else { "binary" });
        m.append(" operator '");
        m.append(op);
        m.append("' - I don't know how to handle this");
        Self::build(m, ctx)
    }

    /// An attempt to leave the global scope.
    pub fn scope_exit_error(ctx: Option<RuntimeContext>) -> (r: Self)
        ensures
            r@ == serr(msg_scope_exit(), ctx_view(ctx)),
    {
        Self::build(String::from_str("Cannot exit the global scope - there's nowhere else to go!"), ctx)
    }

    /// The step budget or the call depth ran out.
    pub fn execution_limit() -> (r: Self)
        ensures
            r@ == serr(msg_limit(), None),
    {
        Self::build(
            String::from_str("Execution limit reached - the program ran too long or recursed too deeply"),
            None,
        )
    }

    /// The same error, with the given context.
    pub fn with_context(self, ctx: RuntimeContext) -> (r: Self)
        ensures
            r@ == (SError { context: Some(ctx@), ..self@ }),
    {
        let mut s = self;
        s.context = Some(ctx);
        s
    }

    /// The same error, at the given position.
    pub fn at(self, line: usize, column: usize) -> (r: Self)
        ensures
            r@ == (SError { line, column, ..self@ }),
    {
        let mut s = self;
        s.line = line;
        s.column = column;
        s
    }

    /// The text of this error.
    pub fn to_display_string(&self) -> (r: String)
        ensures
            r@ == err_text(self@),
    {
        let cpart = match &self.context {
            Some(c) => {
                let t = c.to_display_string();
                concat3(" (while ", t.as_str(), ")")
            },
            None => String::from_str(""),
        };
        let lpart = if self.line > 0 {
            let l = usize_to_string(self.line);
            let colpart = if self.column > 0 {
                let c = usize_to_string(self.column);
                concat2(", column ", c.as_str())
            } else {
                String::from_str("")
            };
            concat3(" at line ", l.as_str(), colpart.as_str())
        } else {
            String::from_str("")
        };
        let head = concat2("Runtime error: ", self.message.as_str());
        let out = concat3(head.as_str(), cpart.as_str(), lpart.as_str());
        out
    }
}

/// The verb that names an arithmetic operator in messages.
fn operation_verb(op: &str) -> (r: &'static str)
    ensures
        r@ == verb(op@),
{
    let o = String::from_str(op);
    if o.eq(&String::from_str("+")) {
        "add"
    } else if o.eq(&String::from_str("-")) {
        "subtract"
    } else if o.eq(&String::from_str("*")) {
        "multiply"
    } else if o.eq(&String::from_str("/")) {
        "divide"
    } else if o.eq(&String::from_str("%")) {
        "apply modulo to"
    } else if o.eq(&String::from_str("**")) {
        "raise"
    } else if o.eq(&String::from_str("and")) || o.eq(&String::from_str("or")) {
        "combine"
    } else {
        "operate on"
    }
}

} // verus!
