//! Read-only descriptions of built-in functions, used by semantic analysis.
pub mod function;
pub mod registry;
pub mod laws;

pub use self::function::{NativeFunction, NativeFunctionError, MAX_NATIVE_ARITY};
pub use self::registry::{
    NativeFunctionRegistry, NativeFunctionRegistryBuilder, NativeFunctionValidationError,
};
