use veltrix::interpreter::{
    ControlFlow, Environment, FunctionValue, Interpreter, RuntimeContext, RuntimeError, Value,
    is_truthy, values_equal,
};
use veltrix::lexer::Lexer;
use veltrix::parser::Parser;
use veltrix::parser::ast::{
    AssignmentExpression, BinaryExpression, Expression, ForStatement, IfStatement, LetStatement,
    Statement, WhileStatement,
};


    fn interpret_source(source: &str) -> Result<Value, RuntimeError> {
        let mut lexer = Lexer::new(source);
        let tokens = lexer.tokenize().map_err(|e| RuntimeError {
            message: e.message,
            line: e.line,
            column: e.column,
            context: None,
        })?;
        let mut parser = Parser::new(tokens);
        let program = parser.parse_program().map_err(|e| RuntimeError {
            message: e.message,
            line: e.line,
            column: e.column,
            context: None,
        })?;

        let mut interpreter = Interpreter::new();
        interpreter.execute_program(&program.statements)
    }


    fn interpret_with_functions(source: &str) -> Result<Value, RuntimeError> {
        let mut lexer = Lexer::new(source);
        let tokens = lexer.tokenize().map_err(|e| RuntimeError {
            message: e.message,
            line: e.line,
            column: e.column,
            context: None,
        })?;
        let mut parser = Parser::new(tokens);
        let program = parser.parse_program().map_err(|e| RuntimeError {
            message: e.message,
            line: e.line,
            column: e.column,
            context: None,
        })?;

        // Run semantic analysis first
        let mut analyzer = veltrix::semantic::SemanticAnalyzer::new();
        analyzer.analyze_program(&program).map_err(|e| RuntimeError {
            message: e.message,
            line: e.line,
            column: e.column,
            context: None,
        })?;

        let mut interpreter = Interpreter::new();
        interpreter.execute_program(&program.statements)
    }


    #[test]
    fn test_integer_literal() {
        let result = interpret_source("let x = 42");
        assert!(result.is_ok());
    }


    #[test]
    fn mod_test_string_literal() {
        let result = interpret_source("let x = \"hello\"");
        assert!(result.is_ok());
    }


    #[test]
    fn test_boolean_literal() {
        let result = interpret_source("let x = true");
        assert!(result.is_ok());
        let result = interpret_source("let x = false");
        assert!(result.is_ok());
    }


    #[test]
    fn test_arithmetic_addition() {
        let result = interpret_source("let x = 5 + 3");
        assert!(result.is_ok());
    }


    #[test]
    fn test_arithmetic_multiplication() {
        let result = interpret_source("let x = 5 * 3");
        assert!(result.is_ok());
    }


    #[test]
    fn test_comparison_less_than() {
        let result = interpret_source("let x = 5 < 10");
        assert!(result.is_ok());
    }


    #[test]
    fn test_comparison_equal() {
        let result = interpret_source("let x = 5 == 5");
        assert!(result.is_ok());
    }


    #[test]
    fn test_unary_negation() {
        let result = interpret_source("let x = -5");
        assert!(result.is_ok());
    }


    #[test]
    fn test_unary_not() {
        let result = interpret_source("let x = not true");
        assert!(result.is_ok());
    }


    #[test]
    fn test_array_literal() {
        let result = interpret_source("let x = [1, 2, 3]");
        assert!(result.is_ok());
    }


    #[test]
    fn mod_test_empty_array() {
        let result = interpret_source("let x = []");
        assert!(result.is_ok());
    }


    #[test]
    fn test_variable_declaration_and_lookup() {
        let mut env = Environment::new();
        env.define("x".to_string(), Value::Integer(42));

        let value = env.lookup("x");
        assert!(value.is_some());
        assert_eq!(value.unwrap(), &Value::Integer(42));
    }


    #[test]
    fn test_variable_assignment() {
        let mut env = Environment::new();
        env.define("x".to_string(), Value::Integer(5));
        env.assign("x", Value::Integer(10)).unwrap();

        let value = env.lookup("x");
        assert_eq!(value.unwrap(), &Value::Integer(10));
    }


    #[test]
    fn test_scope_isolation() {
        let mut env = Environment::new();
        env.define("x".to_string(), Value::Integer(1));

        env.enter_scope();
        env.define("x".to_string(), Value::Integer(2));
        let inner_value = env.lookup("x");
        assert_eq!(inner_value.unwrap(), &Value::Integer(2));

        env.exit_scope().unwrap();
        let outer_value = env.lookup("x");
        assert_eq!(outer_value.unwrap(), &Value::Integer(1));
    }


    #[test]
    fn test_scope_exit_error() {
        let mut env = Environment::new();
        let result = env.exit_scope();
        assert!(result.is_err());
        assert!(result.unwrap_err().message.contains("global scope"));
    }


    #[test]
    fn test_if_statement_true() {
        let source = r#"
if true:
    let x = 1
"#;
        let result = interpret_source(source);
        assert!(result.is_ok());
    }


    #[test]
    fn test_if_statement_false() {
        let source = r#"
if false:
    let x = 1
"#;
        let result = interpret_source(source);
        assert!(result.is_ok());
    }


    #[test]
    fn test_if_else_statement() {
        let source = r#"
if false:
    let x = 1
else:
    let y = 2
"#;
        let result = interpret_source(source);
        assert!(result.is_ok());
    }


    #[test]
    fn mod_test_while_loop() {
        let source = r#"
let x = 0
while x < 3:
    x = x + 1
"#;
        let result = interpret_source(source);
        assert!(result.is_ok());
    }


    #[test]
    fn test_for_loop() {
        let source = r#"
let sum = 0
for i in [1, 2, 3]:
    sum = sum + i
"#;
        let result = interpret_source(source);
        assert!(result.is_ok());
    }


    #[test]
    fn test_function_declaration_registers_in_environment() {
        let source = r#"
function greet(name):
    return name
"#;
        let mut lexer = Lexer::new(source);
        let tokens = lexer.tokenize().unwrap();
        let mut parser = Parser::new(tokens);
        let program = parser.parse_program().unwrap();

        let mut interpreter = Interpreter::new();
        interpreter.execute_program(&program.statements).unwrap();

        // Function should be stored as a value in the environment
        let value = interpreter.environment().lookup("greet");
        assert!(value.is_some());
        assert!(matches!(value.unwrap(), Value::Function(_)));
    }


    #[test]
    fn test_zero_parameter_function() {
        let source = r#"
function empty():
    return 42

empty()
"#;
        let result = interpret_with_functions(source);
        assert!(result.is_ok(), "Zero-parameter function should work: {:?}", result.err());
        assert_eq!(result.unwrap(), Value::Integer(42));
    }


    #[test]
    fn test_simple_function_call() {
        let source = r#"
function greet(name):
    return name

greet("Alice")
"#;
        let result = interpret_with_functions(source);
        assert!(result.is_ok(), "Function call should work: {:?}", result.err());
        assert_eq!(result.unwrap(), Value::String("Alice".to_string()));
    }


    #[test]
    fn test_function_call_with_multiple_args() {
        let source = r#"
function add(a, b):
    return a + b

add(3, 4)
"#;
        let result = interpret_with_functions(source);
        assert!(result.is_ok(), "Multi-arg function call should work: {:?}", result.err());
        assert_eq!(result.unwrap(), Value::Integer(7));
    }


    #[test]
    fn test_function_call_arity_error_too_few() {
        let source = r#"
function add(a, b):
    return a + b

add(3)
"#;
        let result = interpret_with_functions(source);
        assert!(result.is_err());
        let err = result.unwrap_err();
        assert!(err.message.contains("expects 2"));
        assert!(err.message.contains("got 1"));
    }


    #[test]
    fn test_function_call_arity_error_too_many() {
        let source = r#"
function add(a, b):
    return a + b

add(1, 2, 3)
"#;
        let result = interpret_with_functions(source);
        assert!(result.is_err());
        let err = result.unwrap_err();
        assert!(err.message.contains("expects 2"));
        assert!(err.message.contains("got 3"));
    }


    #[test]
    fn test_undefined_function_error() {
        let source = r#"
undefined_func()
"#;
        let result = interpret_with_functions(source);
        assert!(result.is_err());
        let err = result.unwrap_err();
        assert!(err.message.contains("Unknown function") || err.message.contains("Undefined function"));
        assert!(err.message.contains("undefined_func"));
    }


    #[test]
    fn test_recursive_factorial() {
        let source = r#"
function factorial(n):
    if n <= 1:
        return 1
    else:
        return n * factorial(n - 1)

factorial(5)
"#;
        let result = interpret_with_functions(source);
        assert!(result.is_ok(), "Recursive factorial should work: {:?}", result.err());
        assert_eq!(result.unwrap(), Value::Integer(120));
    }


    #[test]
    fn test_recursive_fibonacci() {
        let source = r#"
function fibonacci(n):
    if n <= 1:
        return n
    else:
        return fibonacci(n - 1) + fibonacci(n - 2)

fibonacci(6)
"#;
        let result = interpret_with_functions(source);
        assert!(result.is_ok(), "Recursive fibonacci should work: {:?}", result.err());
        // fib(6) = 8 (0, 1, 1, 2, 3, 5, 8)
        assert_eq!(result.unwrap(), Value::Integer(8));
    }


    #[test]
    fn mod_test_nested_function_calls() {
        let source = r#"
function add(a, b):
    return a + b

function double(x):
    return add(x, x)

double(5)
"#;
        let result = interpret_with_functions(source);
        assert!(result.is_ok(), "Nested function calls should work: {:?}", result.err());
        assert_eq!(result.unwrap(), Value::Integer(10));
    }


    #[test]
    fn test_scope_isolation_no_leak() {
        let source = r#"
function inner():
    let x = 100
    return x

function outer():
    inner()
    return x

outer()
"#;
        let result = interpret_with_functions(source);
        // Should fail because x is not defined in outer's scope
        assert!(result.is_err());
        let err = result.unwrap_err();
        assert!(err.message.contains("Undefined variable"));
    }


    #[test]
    fn test_parameter_shadowing() {
        let source = r#"
let x = 10

function shadow(x):
    return x

shadow(5)
"#;
        let result = interpret_with_functions(source);
        assert!(result.is_ok(), "Parameter shadowing should work: {:?}", result.err());
        assert_eq!(result.unwrap(), Value::Integer(5));
    }


    #[test]
    fn test_function_call_does_not_leak_locals() {
        let source = r#"
let global_var = 42

function modify():
    let local_var = 100
    return local_var

modify()
"#;
        let mut lexer = Lexer::new(source);
        let tokens = lexer.tokenize().unwrap();
        let mut parser = Parser::new(tokens);
        let program = parser.parse_program().unwrap();

        let mut analyzer = veltrix::semantic::SemanticAnalyzer::new();
        analyzer.analyze_program(&program).unwrap();

        let mut interpreter = Interpreter::new();
        interpreter.execute_program(&program.statements).unwrap();

        // Global variable should still be accessible
        let global = interpreter.environment().lookup("global_var");
        assert!(global.is_some());
        assert_eq!(global.unwrap(), &Value::Integer(42));

        // Local variable should NOT be accessible
        let local = interpreter.environment().lookup("local_var");
        assert!(local.is_none());
    }


    #[test]
    fn test_function_return_value() {
        let source = r#"
function get_value():
    return 42

get_value()
"#;
        let result = interpret_with_functions(source);
        assert!(result.is_ok());
        assert_eq!(result.unwrap(), Value::Integer(42));
    }


    #[test]
    fn test_function_empty_return() {
        let source = r#"
function empty_return():
    return

empty_return()
"#;
        let result = interpret_with_functions(source);
        assert!(result.is_ok());
        assert_eq!(result.unwrap(), Value::Nil);
    }


    #[test]
    fn test_function_no_return() {
        let source = r#"
function no_return():
    let x = 5

no_return()
"#;
        let result = interpret_with_functions(source);
        assert!(result.is_ok());
        assert_eq!(result.unwrap(), Value::Nil);
    }


    #[test]
    fn test_return_expression() {
        let source = r#"
function calc(a, b):
    return a * b + 1

calc(3, 4)
"#;
        let result = interpret_with_functions(source);
        assert!(result.is_ok());
        assert_eq!(result.unwrap(), Value::Integer(13));
    }


    #[test]
    fn test_undefined_variable() {
        let source = r#"
let x = undefined_var
"#;
        let result = interpret_source(source);
        assert!(result.is_err());
        let err = result.unwrap_err();
        assert!(err.message.contains("Undefined variable"));
    }


    #[test]
    fn test_division_by_zero() {
        let source = r#"
let x = 10 / 0
"#;
        let result = interpret_source(source);
        assert!(result.is_err());
        let err = result.unwrap_err();
        assert!(err.message.contains("Division by zero"));
    }


    #[test]
    fn test_type_error_addition() {
        let source = r#"
let x = 5 + "hello"
"#;
        let result = interpret_source(source);
        assert!(result.is_err());
        let err = result.unwrap_err();
        assert!(err.message.contains("Cannot add"));
    }


    #[test]
    fn test_truthy_values() {
        assert!(is_truthy(&Value::Boolean(true)));
        assert!(is_truthy(&Value::Integer(1)));
        assert!(is_truthy(&Value::String("hello".to_string())));
        assert!(is_truthy(&Value::Array(vec![Value::Integer(1)])));
    }


    #[test]
    fn test_falsy_values() {
        assert!(!is_truthy(&Value::Boolean(false)));
        assert!(!is_truthy(&Value::Nil));
        assert!(!is_truthy(&Value::Integer(0)));
        assert!(!is_truthy(&Value::String("".to_string())));
        assert!(!is_truthy(&Value::Array(vec![])));
    }


    #[test]
    fn test_value_equality() {
        assert!(values_equal(&Value::Integer(5), &Value::Integer(5)));
        assert!(!values_equal(&Value::Integer(5), &Value::Integer(6)));
        assert!(values_equal(&Value::Nil, &Value::Nil));
        assert!(!values_equal(&Value::Integer(5), &Value::Nil));
    }


    #[test]
    fn test_multiple_function_calls_isolated() {
        let source = r#"
function counter():
    let count = 0
    count = count + 1
    return count

counter()
counter()
counter()
"#;
        // Each call should have its own scope, so count always starts at 0
        let result = interpret_with_functions(source);
        assert!(result.is_ok(), "Multiple isolated calls should work: {:?}", result.err());
        assert_eq!(result.unwrap(), Value::Integer(1));
    }


    #[test]
    fn test_deeply_nested_calls() {
        let source = r#"
function level1(x):
    return x + 1

function level2(x):
    return level1(x) + 1

function level3(x):
    return level2(x) + 1

level3(5)
"#;
        let result = interpret_with_functions(source);
        assert!(result.is_ok(), "Deeply nested calls should work: {:?}", result.err());
        assert_eq!(result.unwrap(), Value::Integer(8));
    }


    #[test]
    fn test_function_call_in_expression() {
        let source = r#"
function double(x):
    return x * 2

let result = double(5) + 3
result
"#;
        let result = interpret_with_functions(source);
        assert!(result.is_ok(), "Function call in expression should work: {:?}", result.err());
        assert_eq!(result.unwrap(), Value::Integer(13));
    }


    #[test]
    fn test_empty_program() {
        let source = "";
        let result = interpret_source(source);
        assert!(result.is_ok(), "Empty program should succeed");
        assert_eq!(result.unwrap(), Value::Nil, "Empty program should return Nil");
    }


    #[test]
    fn test_program_with_only_expressions() {
        let source = r#"
5 + 3
10 * 2
"#;
        let result = interpret_source(source);
        assert!(result.is_ok(), "Program with only expressions should succeed");
        // Last expression value should be the result
        assert_eq!(result.unwrap(), Value::Integer(20));
    }


    #[test]
    fn test_top_level_return_produces_error() {
        let source = r#"
let x = 10
return x
let y = 20
"#;
        let result = interpret_source(source);
        assert!(result.is_err(), "Top-level return should produce an error");
        let err = result.unwrap_err();
        assert!(err.message.contains("Return statement outside of function"));
    }


    #[test]
    fn test_top_level_return_without_value_produces_error() {
        let source = r#"
let x = 10
return
let y = 20
"#;
        let result = interpret_source(source);
        assert!(result.is_err(), "Top-level return without value should produce an error");
        let err = result.unwrap_err();
        assert!(err.message.contains("Return statement outside of function"));
    }


    #[test]
    fn test_return_inside_function_is_allowed() {
        let source = r#"
function get_value():
    return 42

get_value()
"#;
        let result = interpret_with_functions(source);
        assert!(result.is_ok(), "Return inside function should be allowed");
        assert_eq!(result.unwrap(), Value::Integer(42));
    }


    #[test]
    fn test_return_inside_nested_function_is_allowed() {
        let source = r#"
function outer():
    function inner():
        return "inner_value"
    return inner()

outer()
"#;
        let result = interpret_with_functions(source);
        assert!(result.is_ok(), "Return inside nested function should be allowed");
        assert_eq!(result.unwrap(), Value::String("inner_value".to_string()));
    }


    #[test]
    fn test_variable_redeclaration_error() {
        let source = r#"
let x = 5
let x = 10
"#;
        let result = interpret_source(source);
        // Note: The semantic analyzer would catch this, but at runtime
        // the interpreter just overwrites the variable value
        // This test documents the current behavior
        assert!(result.is_ok(), "Interpreter allows variable overwrite (semantic analyzer catches redeclaration)");
    }


    #[test]
    fn test_undefined_variable_access() {
        let source = r#"
let x = undefined_var + 5
"#;
        let result = interpret_source(source);
        assert!(result.is_err(), "Accessing undefined variable should fail");
        let err = result.unwrap_err();
        assert!(err.message.contains("Undefined variable"));
        assert!(err.message.contains("undefined_var"));
    }


    #[test]
    fn test_undefined_function_call() {
        let source = r#"
nonexistent_function()
"#;
        let result = interpret_with_functions(source);
        assert!(result.is_err(), "Calling undefined function should fail");
        let err = result.unwrap_err();
        assert!(err.message.contains("Unknown function") || err.message.contains("Undefined function"));
        assert!(err.message.contains("nonexistent_function"));
    }


    #[test]
    fn test_multiple_variable_declarations() {
        let source = r#"
let a = 1
let b = 2
let c = 3
a + b + c
"#;
        let result = interpret_source(source);
        assert!(result.is_ok(), "Multiple variable declarations should succeed");
        assert_eq!(result.unwrap(), Value::Integer(6));
    }


    #[test]
    fn test_top_level_function_call() {
        let source = r#"
function greet():
    return "hello"

greet()
"#;
        let result = interpret_with_functions(source);
        assert!(result.is_ok(), "Top-level function call should succeed");
        assert_eq!(result.unwrap(), Value::String("hello".to_string()));
    }


    #[test]
    fn test_modulo_basic() {
        let source = r#"let x = 10 % 3"#;
        let result = interpret_source(source);
        assert!(result.is_ok(), "Modulo operation should work");
    }


    #[test]
    fn test_modulo_result_value() {
        // Directly test the modulo operation through expression evaluation
        let mut env = Environment::new();
        env.define("x".to_string(), Value::Integer(10));
        env.define("y".to_string(), Value::Integer(3));
        
        // Create a binary expression: x % y
        let expr = Expression::Binary(BinaryExpression {
            left: Box::new(Expression::Identifier("x".to_string())),
            operator: "%".to_string(),
            right: Box::new(Expression::Identifier("y".to_string())),
        });
        
        let mut interpreter = Interpreter::new();
        *interpreter.environment_mut() = env;
        let result = interpreter.evaluate_expression(&expr);
        
        assert!(result.is_ok(), "Modulo evaluation should succeed");
        assert_eq!(result.unwrap(), Value::Integer(1)); // 10 % 3 = 1
    }


    #[test]
    fn test_modulo_by_zero_error() {
        let mut env = Environment::new();
        env.define("x".to_string(), Value::Integer(10));
        env.define("y".to_string(), Value::Integer(0));
        
        let expr = Expression::Binary(BinaryExpression {
            left: Box::new(Expression::Identifier("x".to_string())),
            operator: "%".to_string(),
            right: Box::new(Expression::Identifier("y".to_string())),
        });
        
        let mut interpreter = Interpreter::new();
        *interpreter.environment_mut() = env;
        let result = interpreter.evaluate_expression(&expr);
        
        assert!(result.is_err(), "Modulo by zero should fail");
        let err = result.unwrap_err();
        assert!(err.message.contains("Modulo by zero"));
    }


    #[test]
    fn test_modulo_with_non_integer_error() {
        let mut env = Environment::new();
        env.define("x".to_string(), Value::String("hello".to_string()));
        env.define("y".to_string(), Value::Integer(3));
        
        let expr = Expression::Binary(BinaryExpression {
            left: Box::new(Expression::Identifier("x".to_string())),
            operator: "%".to_string(),
            right: Box::new(Expression::Identifier("y".to_string())),
        });
        
        let mut interpreter = Interpreter::new();
        *interpreter.environment_mut() = env;
        let result = interpreter.evaluate_expression(&expr);
        
        assert!(result.is_err(), "Modulo with non-integer should fail");
        let err = result.unwrap_err();
        assert!(err.message.contains("Cannot apply modulo"));
    }


    #[test]
    fn test_power_basic() {
        let mut env = Environment::new();
        env.define("x".to_string(), Value::Integer(2));
        env.define("y".to_string(), Value::Integer(3));
        
        let expr = Expression::Binary(BinaryExpression {
            left: Box::new(Expression::Identifier("x".to_string())),
            operator: "**".to_string(),
            right: Box::new(Expression::Identifier("y".to_string())),
        });
        
        let mut interpreter = Interpreter::new();
        *interpreter.environment_mut() = env;
        let result = interpreter.evaluate_expression(&expr);
        
        assert!(result.is_ok(), "Power operation should succeed");
        assert_eq!(result.unwrap(), Value::Integer(8)); // 2 ** 3 = 8
    }


    #[test]
    fn test_power_zero_exponent() {
        let mut env = Environment::new();
        env.define("x".to_string(), Value::Integer(5));
        env.define("y".to_string(), Value::Integer(0));
        
        let expr = Expression::Binary(BinaryExpression {
            left: Box::new(Expression::Identifier("x".to_string())),
            operator: "**".to_string(),
            right: Box::new(Expression::Identifier("y".to_string())),
        });
        
        let mut interpreter = Interpreter::new();
        *interpreter.environment_mut() = env;
        let result = interpreter.evaluate_expression(&expr);
        
        assert!(result.is_ok(), "Power with zero exponent should succeed");
        assert_eq!(result.unwrap(), Value::Integer(1)); // 5 ** 0 = 1
    }


    #[test]
    fn test_power_negative_exponent_returns_zero() {
        let mut env = Environment::new();
        env.define("x".to_string(), Value::Integer(2));
        env.define("y".to_string(), Value::Integer(-3));
        
        let expr = Expression::Binary(BinaryExpression {
            left: Box::new(Expression::Identifier("x".to_string())),
            operator: "**".to_string(),
            right: Box::new(Expression::Identifier("y".to_string())),
        });
        
        let mut interpreter = Interpreter::new();
        *interpreter.environment_mut() = env;
        let result = interpreter.evaluate_expression(&expr);
        
        assert!(result.is_ok(), "Power with negative exponent should return 0");
        assert_eq!(result.unwrap(), Value::Integer(0)); // 2 ** -3 = 0 (integer semantics)
    }


    #[test]
    fn test_power_large_numbers() {
        let mut env = Environment::new();
        env.define("x".to_string(), Value::Integer(2));
        env.define("y".to_string(), Value::Integer(10));
        
        let expr = Expression::Binary(BinaryExpression {
            left: Box::new(Expression::Identifier("x".to_string())),
            operator: "**".to_string(),
            right: Box::new(Expression::Identifier("y".to_string())),
        });
        
        let mut interpreter = Interpreter::new();
        *interpreter.environment_mut() = env;
        let result = interpreter.evaluate_expression(&expr);
        
        assert!(result.is_ok(), "Power with large numbers should succeed");
        assert_eq!(result.unwrap(), Value::Integer(1024)); // 2 ** 10 = 1024
    }


    #[test]
    fn test_power_with_non_integer_error() {
        let mut env = Environment::new();
        env.define("x".to_string(), Value::String("hello".to_string()));
        env.define("y".to_string(), Value::Integer(2));
        
        let expr = Expression::Binary(BinaryExpression {
            left: Box::new(Expression::Identifier("x".to_string())),
            operator: "**".to_string(),
            right: Box::new(Expression::Identifier("y".to_string())),
        });
        
        let mut interpreter = Interpreter::new();
        *interpreter.environment_mut() = env;
        let result = interpreter.evaluate_expression(&expr);
        
        assert!(result.is_err(), "Power with non-integer should fail");
        let err = result.unwrap_err();
        assert!(err.message.contains("Cannot raise"));
    }


    #[test]
    fn test_short_circuit_and_left_falsy() {
        // When left is falsy, and should short-circuit and return left without evaluating right
        let mut env = Environment::new();
        env.define("x".to_string(), Value::Boolean(false));
        // y is not defined, but should not be accessed due to short-circuiting
        
        let expr = Expression::Binary(BinaryExpression {
            left: Box::new(Expression::Identifier("x".to_string())),
            operator: "and".to_string(),
            right: Box::new(Expression::Identifier("undefined_var".to_string())),
        });
        
        let mut interpreter = Interpreter::new();
        *interpreter.environment_mut() = env;
        let result = interpreter.evaluate_expression(&expr);
        
        assert!(result.is_ok(), "Short-circuit and should succeed");
        assert_eq!(result.unwrap(), Value::Boolean(false));
    }


    #[test]
    fn test_short_circuit_and_left_truthy() {
        // When left is truthy, and should evaluate right
        let mut env = Environment::new();
        env.define("x".to_string(), Value::Boolean(true));
        env.define("y".to_string(), Value::Boolean(true));
        
        let expr = Expression::Binary(BinaryExpression {
            left: Box::new(Expression::Identifier("x".to_string())),
            operator: "and".to_string(),
            right: Box::new(Expression::Identifier("y".to_string())),
        });
        
        let mut interpreter = Interpreter::new();
        *interpreter.environment_mut() = env;
        let result = interpreter.evaluate_expression(&expr);
        
        assert!(result.is_ok(), "And with truthy left should succeed");
        assert_eq!(result.unwrap(), Value::Boolean(true));
    }


    #[test]
    fn test_short_circuit_or_left_truthy() {
        // When left is truthy, or should short-circuit and return left without evaluating right
        let mut env = Environment::new();
        env.define("x".to_string(), Value::Boolean(true));
        // y is not defined, but should not be accessed due to short-circuiting
        
        let expr = Expression::Binary(BinaryExpression {
            left: Box::new(Expression::Identifier("x".to_string())),
            operator: "or".to_string(),
            right: Box::new(Expression::Identifier("undefined_var".to_string())),
        });
        
        let mut interpreter = Interpreter::new();
        *interpreter.environment_mut() = env;
        let result = interpreter.evaluate_expression(&expr);
        
        assert!(result.is_ok(), "Short-circuit or should succeed");
        assert_eq!(result.unwrap(), Value::Boolean(true));
    }


    #[test]
    fn test_short_circuit_or_left_falsy() {
        // When left is falsy, or should evaluate right
        let mut env = Environment::new();
        env.define("x".to_string(), Value::Boolean(false));
        env.define("y".to_string(), Value::Boolean(true));
        
        let expr = Expression::Binary(BinaryExpression {
            left: Box::new(Expression::Identifier("x".to_string())),
            operator: "or".to_string(),
            right: Box::new(Expression::Identifier("y".to_string())),
        });
        
        let mut interpreter = Interpreter::new();
        *interpreter.environment_mut() = env;
        let result = interpreter.evaluate_expression(&expr);
        
        assert!(result.is_ok(), "Or with falsy left should succeed");
        assert_eq!(result.unwrap(), Value::Boolean(true));
    }


    #[test]
    fn test_short_circuit_with_integer_truthy() {
        let mut env = Environment::new();
        env.define("x".to_string(), Value::Integer(5)); // truthy
        // undefined_var should not be accessed
        
        let expr = Expression::Binary(BinaryExpression {
            left: Box::new(Expression::Identifier("x".to_string())),
            operator: "or".to_string(),
            right: Box::new(Expression::Identifier("undefined_var".to_string())),
        });
        
        let mut interpreter = Interpreter::new();
        *interpreter.environment_mut() = env;
        let result = interpreter.evaluate_expression(&expr);
        
        assert!(result.is_ok(), "Short-circuit or with integer should succeed");
        // Should return the original truthy value (5), not boolean true
        assert_eq!(result.unwrap(), Value::Integer(5));
    }


    #[test]
    fn test_short_circuit_with_integer_falsy() {
        let mut env = Environment::new();
        env.define("x".to_string(), Value::Integer(0)); // falsy
        env.define("y".to_string(), Value::Integer(10));
        
        let expr = Expression::Binary(BinaryExpression {
            left: Box::new(Expression::Identifier("x".to_string())),
            operator: "and".to_string(),
            right: Box::new(Expression::Identifier("y".to_string())),
        });
        
        let mut interpreter = Interpreter::new();
        *interpreter.environment_mut() = env;
        let result = interpreter.evaluate_expression(&expr);
        
        assert!(result.is_ok(), "Short-circuit and with falsy integer should succeed");
        // Should return the original falsy value (0), not boolean false
        assert_eq!(result.unwrap(), Value::Integer(0));
    }


    #[test]
    fn test_assignment_expression_basic() {
        let mut env = Environment::new();
        env.define("x".to_string(), Value::Integer(5));
        
        // Create assignment expression: x = 10
        let expr = Expression::Assignment(AssignmentExpression {
            name: "x".to_string(),
            value: Box::new(Expression::Integer(10)),
        });
        
        let mut interpreter = Interpreter::new();
        *interpreter.environment_mut() = env;
        let result = interpreter.evaluate_expression(&expr);
        
        assert!(result.is_ok(), "Assignment expression should succeed");
        assert_eq!(result.unwrap(), Value::Integer(10)); // Returns the assigned value
        
        // Verify the variable was updated
        let updated = interpreter.environment().lookup("x");
        assert_eq!(updated.unwrap(), &Value::Integer(10));
    }


    #[test]
    fn test_assignment_expression_with_expression_value() {
        let mut env = Environment::new();
        env.define("x".to_string(), Value::Integer(5));
        env.define("y".to_string(), Value::Integer(3));
        
        // Create assignment expression: x = y + 2
        let expr = Expression::Assignment(AssignmentExpression {
            name: "x".to_string(),
            value: Box::new(Expression::Binary(BinaryExpression {
                left: Box::new(Expression::Identifier("y".to_string())),
                operator: "+".to_string(),
                right: Box::new(Expression::Integer(2)),
            })),
        });
        
        let mut interpreter = Interpreter::new();
        *interpreter.environment_mut() = env;
        let result = interpreter.evaluate_expression(&expr);
        
        assert!(result.is_ok(), "Assignment with expression should succeed");
        assert_eq!(result.unwrap(), Value::Integer(5)); // 3 + 2 = 5
        
        let updated = interpreter.environment().lookup("x");
        assert_eq!(updated.unwrap(), &Value::Integer(5));
    }


    #[test]
    fn test_assignment_expression_undefined_variable() {
        // Try to assign to undefined variable
        let expr = Expression::Assignment(AssignmentExpression {
            name: "undefined_var".to_string(),
            value: Box::new(Expression::Integer(10)),
        });
        
        let mut interpreter = Interpreter::new();
        let result = interpreter.evaluate_expression(&expr);
        
        assert!(result.is_err(), "Assignment to undefined variable should fail");
        let err = result.unwrap_err();
        assert!(err.message.contains("Undefined variable"));
    }


    #[test]
    fn test_chained_assignment_expression() {
        // Test chained assignment: a = b = 5 (evaluated right-to-left)
        let mut env = Environment::new();
        env.define("a".to_string(), Value::Integer(0));
        env.define("b".to_string(), Value::Integer(0));
        
        // Inner assignment: b = 5
        let inner = Expression::Assignment(AssignmentExpression {
            name: "b".to_string(),
            value: Box::new(Expression::Integer(5)),
        });
        
        // Outer assignment: a = (b = 5)
        let outer = Expression::Assignment(AssignmentExpression {
            name: "a".to_string(),
            value: Box::new(inner),
        });
        
        let mut interpreter = Interpreter::new();
        *interpreter.environment_mut() = env;
        let result = interpreter.evaluate_expression(&outer);
        
        assert!(result.is_ok(), "Chained assignment should succeed");
        assert_eq!(result.unwrap(), Value::Integer(5));
        
        // Both variables should be 5
        let a_val = interpreter.environment().lookup("a");
        let b_val = interpreter.environment().lookup("b");
        assert_eq!(a_val.unwrap(), &Value::Integer(5));
        assert_eq!(b_val.unwrap(), &Value::Integer(5));
    }


    #[test]
    fn test_assignment_expression_returns_value_for_further_use() {
        let mut env = Environment::new();
        env.define("x".to_string(), Value::Integer(0));
        
        // Test that assignment returns a value that can be used in further expressions
        let assign_expr = Expression::Assignment(AssignmentExpression {
            name: "x".to_string(),
            value: Box::new(Expression::Integer(10)),
        });
        
        // Use the assignment result in a binary expression: (x = 10) + 5
        let binary_expr = Expression::Binary(BinaryExpression {
            left: Box::new(assign_expr),
            operator: "+".to_string(),
            right: Box::new(Expression::Integer(5)),
        });
        
        let mut interpreter = Interpreter::new();
        *interpreter.environment_mut() = env;
        let result = interpreter.evaluate_expression(&binary_expr);
        
        assert!(result.is_ok(), "Assignment result in expression should work");
        assert_eq!(result.unwrap(), Value::Integer(15)); // (x = 10) returns 10, 10 + 5 = 15
    }


    #[test]
    fn test_sequential_variable_updates() {
        let mut env = Environment::new();
        env.define("x".to_string(), Value::Integer(0));
        
        // First assignment: x = 5
        let assign1 = Expression::Assignment(AssignmentExpression {
            name: "x".to_string(),
            value: Box::new(Expression::Integer(5)),
        });
        
        let mut interpreter = Interpreter::new();
        *interpreter.environment_mut() = env.clone();
        interpreter.evaluate_expression(&assign1).unwrap();
        
        // Second assignment: x = x + 3
        let assign2 = Expression::Assignment(AssignmentExpression {
            name: "x".to_string(),
            value: Box::new(Expression::Binary(BinaryExpression {
                left: Box::new(Expression::Identifier("x".to_string())),
                operator: "+".to_string(),
                right: Box::new(Expression::Integer(3)),
            })),
        });
        
        let result = interpreter.evaluate_expression(&assign2);
        
        assert!(result.is_ok());
        assert_eq!(result.unwrap(), Value::Integer(8)); // 5 + 3 = 8
        
        let final_val = interpreter.environment().lookup("x");
        assert_eq!(final_val.unwrap(), &Value::Integer(8));
    }


    #[test]
    fn test_nested_control_flow_if_inside_while() {
        let source = r#"
let x = 0
let result = 0
while x < 3:
    if x == 1:
        result = result + 10
    else:
        result = result + 1
    x = x + 1
result
"#;
        let result = interpret_source(source);
        assert!(result.is_ok(), "Nested if inside while should work");
        // x=0: result=0+1=1, x=1: result=1+10=11, x=2: result=11+1=12
        assert_eq!(result.unwrap(), Value::Integer(12));
    }


    #[test]
    fn test_nested_control_flow_while_inside_if() {
        let source = r#"
let x = 5
let result = 0
if x > 0:
    while x > 0:
        result = result + x
        x = x - 1
result
"#;
        let result = interpret_source(source);
        assert!(result.is_ok(), "Nested while inside if should work");
        // 5+4+3+2+1 = 15
        assert_eq!(result.unwrap(), Value::Integer(15));
    }


    #[test]
    fn test_deeply_nested_control_flow() {
        let source = r#"
let result = 0
let x = 0
while x < 2:
    let y = 0
    while y < 2:
        if x == y:
            result = result + 1
        y = y + 1
    x = x + 1
result
"#;
        let result = interpret_source(source);
        assert!(result.is_ok(), "Deeply nested control flow should work");
        // (0,0) adds 1, (0,1) no add, (1,0) no add, (1,1) adds 1 -> total 2
        assert_eq!(result.unwrap(), Value::Integer(2));
    }


    #[test]
    fn test_while_loop_with_empty_body() {
        let source = r#"
let x = 0
while x < 5:
    x = x + 1
"#;
        let result = interpret_source(source);
        assert!(result.is_ok(), "While loop with increment-only body should work");
    }


    #[test]
    fn test_for_loop_with_empty_body() {
        let source = r#"
let sum = 0
for i in [1, 2, 3]:
    sum = sum + i
sum
"#;
        let result = interpret_source(source);
        assert!(result.is_ok(), "For loop should work");
        assert_eq!(result.unwrap(), Value::Integer(6));
    }


    #[test]
    fn test_if_statement_with_empty_consequence() {
        let source = r#"
let x = 1
if false:
    x = 2
x
"#;
        let result = interpret_source(source);
        assert!(result.is_ok(), "If with empty consequence should work");
        assert_eq!(result.unwrap(), Value::Integer(1));
    }


    #[test]
    fn test_if_else_with_empty_alternative() {
        let source = r#"
let x = 1
if true:
    x = 2
else:
    x = 3
x
"#;
        let result = interpret_source(source);
        assert!(result.is_ok(), "If-else with empty alternative branch should work");
        assert_eq!(result.unwrap(), Value::Integer(2));
    }


    #[test]
    fn test_sequential_execution_order() {
        let source = r#"
let a = 1
let b = 2
let c = 3
a = a + 1
b = b + a
c = c + b
c
"#;
        let result = interpret_source(source);
        assert!(result.is_ok(), "Sequential execution should maintain order");
        // a=2, b=4, c=7
        assert_eq!(result.unwrap(), Value::Integer(7));
    }


    #[test]
    fn test_for_loop_nested_if() {
        let source = r#"
let result = 0
for i in [1, 2, 3, 4, 5]:
    if i > 3:
        result = result + i
result
"#;
        let result = interpret_source(source);
        assert!(result.is_ok(), "For loop with nested if should work");
        // 4 + 5 = 9
        assert_eq!(result.unwrap(), Value::Integer(9));
    }


    #[test]
    fn test_while_loop_condition_false_initially() {
        let source = r#"
let x = 10
let result = 0
while x < 5:
    result = result + 1
    x = x + 1
result
"#;
        let result = interpret_source(source);
        assert!(result.is_ok(), "While loop with initially false condition should not execute");
        assert_eq!(result.unwrap(), Value::Integer(0));
    }


    #[test]
    fn test_for_loop_over_empty_array() {
        let source = r#"
let result = 0
for i in []:
    result = result + 1
result
"#;
        let result = interpret_source(source);
        assert!(result.is_ok(), "For loop over empty array should not execute body");
        assert_eq!(result.unwrap(), Value::Integer(0));
    }


    #[test]
    fn test_return_from_alternative_branch() {
        let source = r#"
function test(x):
    if x > 0:
        return "positive"
    else:
        return "non-positive"
    return "unreachable"

test(-5)
"#;
        let result = interpret_with_functions(source);
        assert!(result.is_ok(), "Return from alternative branch should work");
        assert_eq!(result.unwrap(), Value::String("non-positive".to_string()));
    }


    #[test]
    fn test_complex_nested_function_with_return() {
        let source = r#"
function outer(n):
    if n <= 0:
        return 0
    let result = 0
    for i in [1, 2, 3]:
        if i == n:
            return i
        result = result + i
    return result

outer(2)
"#;
        let result = interpret_with_functions(source);
        assert!(result.is_ok(), "Complex nested control flow with return should work");
        assert_eq!(result.unwrap(), Value::Integer(2));
    }


    #[test]
    fn test_control_flow_with_function_calls() {
        let source = r#"
function double(x):
    return x * 2

let result = 0
for i in [1, 2, 3]:
    if i > 1:
        result = result + double(i)
result
"#;
        let result = interpret_with_functions(source);
        assert!(result.is_ok(), "Control flow with function calls should work");
        // double(2) + double(3) = 4 + 6 = 10
        assert_eq!(result.unwrap(), Value::Integer(10));
    }


    #[test]
    fn test_public_execute_if_statement_api() {
        let condition = Expression::Boolean(true);
        let if_stmt = IfStatement {
            condition,
            consequence: vec![],
            alternative: None,
        };
        
        let mut interpreter = Interpreter::new();
        let result = interpreter.execute_if_statement(&if_stmt);
        
        assert!(result.is_ok(), "Public execute_if_statement API should work");
        assert_eq!(result.unwrap(), ControlFlow::Continue);
    }


    #[test]
    fn test_public_execute_while_loop_api() {
        let condition = Expression::Boolean(false);
        let while_stmt = WhileStatement {
            condition,
            body: vec![],
        };
        
        let mut interpreter = Interpreter::new();
        let result = interpreter.execute_while_loop(&while_stmt);
        
        assert!(result.is_ok(), "Public execute_while_loop API should work");
        assert_eq!(result.unwrap(), ControlFlow::Continue);
    }


    #[test]
    fn test_public_execute_for_loop_api() {
        let for_stmt = ForStatement {
            item: "i".to_string(),
            list: Expression::Array(vec![]),
            body: vec![],
        };
        
        let mut interpreter = Interpreter::new();
        let result = interpreter.execute_for_loop(&for_stmt);
        
        assert!(result.is_ok(), "Public execute_for_loop API should work");
        assert_eq!(result.unwrap(), ControlFlow::Continue);
    }


    #[test]
    fn test_public_execute_block_api() {
        let stmts = vec![
            Statement::Let(LetStatement {
                name: "x".to_string(),
                value: Expression::Integer(42),
            }),
        ];
        
        let mut interpreter = Interpreter::new();
        let result = interpreter.execute_block(&stmts);
        
        assert!(result.is_ok(), "Public execute_block API should work");
        assert_eq!(result.unwrap(), ControlFlow::Continue);
        
        // Variable should not be visible outside block
        assert!(interpreter.environment().lookup("x").is_none());
    }


    #[test]
    fn test_public_execute_block_api_scope_isolation() {
        let stmts = vec![
            Statement::Expression(Expression::Identifier("outer_var".to_string())),
        ];
        
        let mut interpreter = Interpreter::new();
        interpreter.environment_mut().define("outer_var".to_string(), Value::Integer(10));
        
        // Should be able to access outer variable inside block
        let result = interpreter.execute_block(&stmts);
        assert!(result.is_ok(), "Block should access outer scope");
    }


    #[test]
    fn test_deterministic_evaluation_order() {
        let source = r#"
let a = 0
let b = 0
let c = 0

if true:
    a = 1
    if true:
        b = 2
    c = 3

a + b + c
"#;
        let result = interpret_source(source);
        assert!(result.is_ok(), "Deterministic evaluation should work");
        assert_eq!(result.unwrap(), Value::Integer(6));
    }


    #[test]
    fn test_friendly_undefined_variable_message() {
        let source = r#"let x = unknown_var"#;
        let result = interpret_source(source);
        assert!(result.is_err());
        let err = result.unwrap_err();
        // Should contain helpful, friendly message
        assert!(err.message.contains("don't know about any variable"), 
            "Error should be friendly: {}", err.message);
        assert!(err.message.contains("unknown_var"));
        assert!(err.message.contains("forget to define"));
    }


    #[test]
    fn test_friendly_undefined_function_message() {
        let source = r#"my_func()"#;
        let result = interpret_with_functions(source);
        assert!(result.is_err());
        let err = result.unwrap_err();
        assert!(err.message.contains("Unknown function") || err.message.contains("can't find a function"),
            "Error should be friendly: {}", err.message);
        assert!(err.message.contains("my_func"));
    }


    #[test]
    fn test_friendly_arity_mismatch_message() {
        let source = r#"
function greet(a, b, c):
    return a + b + c

greet(1, 2)
"#;
        let result = interpret_with_functions(source);
        assert!(result.is_err());
        let err = result.unwrap_err();
        assert!(err.message.contains("expects 3"),
            "Error should show expected: {}", err.message);
        assert!(err.message.contains("2") || err.message.contains("got 2"));
    }


    #[test]
    fn test_friendly_arity_mismatch_singular_plural() {
        // Test with 1 argument expected
        let source = r#"
function single(x):
    return x

single()
"#;
        let result = interpret_with_functions(source);
        assert!(result.is_err());
        let err = result.unwrap_err();
        // Should use singular "argument" not "arguments"
        assert!(err.message.contains("expects 1 argument"),
            "Should use singular form: {}", err.message);
    }


    #[test]
    fn test_friendly_return_outside_function() {
        let source = r#"
let x = 5
return x
"#;
        let result = interpret_source(source);
        assert!(result.is_err());
        let err = result.unwrap_err();
        assert!(err.message.contains("can't use 'return' here"),
            "Error should be friendly: {}", err.message);
        assert!(err.message.contains("only allowed inside functions"));
    }


    #[test]
    fn test_friendly_division_by_zero() {
        let source = r#"let x = 10 / 0"#;
        let result = interpret_source(source);
        assert!(result.is_err());
        let err = result.unwrap_err();
        assert!(err.message.contains("Cannot divide by zero"),
            "Error should be clear: {}", err.message);
        assert!(err.message.contains("undefined in mathematics"));
    }


    #[test]
    fn test_friendly_modulo_by_zero() {
        let source = r#"let x = 10 % 0"#;
        let result = interpret_source(source);
        assert!(result.is_err());
        let err = result.unwrap_err();
        assert!(err.message.contains("Cannot calculate modulo with zero"),
            "Error should be clear: {}", err.message);
    }


    #[test]
    fn test_friendly_type_mismatch_addition() {
        let source = r#"let x = 5 + "hello""#;
        let result = interpret_source(source);
        assert!(result.is_err());
        let err = result.unwrap_err();
        assert!(err.message.contains("Cannot add"),
            "Error should be friendly: {}", err.message);
        assert!(err.message.contains("integer"));
        assert!(err.message.contains("string"));
        assert!(err.message.contains("don't work"));
    }


    #[test]
    fn test_friendly_type_mismatch_subtraction() {
        let source = r#"let x = 5 - "hello""#;
        let result = interpret_source(source);
        assert!(result.is_err());
        let err = result.unwrap_err();
        assert!(err.message.contains("Cannot subtract"),
            "Error should be friendly: {}", err.message);
    }


    #[test]
    fn test_friendly_type_mismatch_comparison() {
        let source = r#"let x = 5 < "hello""#;
        let result = interpret_source(source);
        assert!(result.is_err());
        let err = result.unwrap_err();
        assert!(err.message.contains("Cannot compare"),
            "Error should be friendly: {}", err.message);
        assert!(err.message.contains("can't be compared"));
    }


    #[test]
    fn test_friendly_not_iterable_error() {
        let source = r#"
for i in 42:
    write i
"#;
        let result = interpret_source(source);
        assert!(result.is_err());
        let err = result.unwrap_err();
        assert!(err.message.contains("Cannot iterate over"),
            "Error should be friendly: {}", err.message);
        assert!(err.message.contains("for loops only work with arrays"));
        assert!(err.message.contains("integer"));
    }


    #[test]
    fn test_friendly_unary_negation_error() {
        let source = r#"let x = -"hello""#;
        let result = interpret_source(source);
        assert!(result.is_err());
        let err = result.unwrap_err();
        assert!(err.message.contains("Cannot apply"),
            "Error should be friendly: {}", err.message);
        assert!(err.message.contains("string"));
        assert!(err.message.contains("doesn't make sense"));
    }


    #[test]
    fn test_friendly_assignment_undefined_variable() {
        let source = r#"x = 5"#;
        let result = interpret_source(source);
        assert!(result.is_err());
        let err = result.unwrap_err();
        assert!(err.message.contains("Cannot assign to 'x'"),
            "Error should be friendly: {}", err.message);
        assert!(err.message.contains("hasn't been defined yet"));
        assert!(err.message.contains("Use 'let x = ...' first"));
    }


    #[test]
    fn test_friendly_scope_exit_error() {
        let mut env = Environment::new();
        let result = env.exit_scope();
        assert!(result.is_err());
        let err = result.unwrap_err();
        assert!(err.message.contains("Cannot exit the global scope"),
            "Error should be friendly: {}", err.message);
        assert!(err.message.contains("nowhere else to go"));
    }


    #[test]
    fn test_error_display_includes_context() {
        let ctx = RuntimeContext::new("testing operation").with_function("my_func");
        let err = RuntimeError::undefined_variable("x", Some(ctx));
        let display = err.to_display_string();
        assert!(display.contains("testing operation"), 
            "Display should include context: {}", display);
        assert!(display.contains("my_func"));
    }


    #[test]
    fn test_error_display_with_line_column() {
        let err = RuntimeError::new("Something went wrong").at(10, 5);
        let display = err.to_display_string();
        assert!(display.contains("at line 10"), 
            "Display should include line: {}", display);
        assert!(display.contains("column 5"));
    }


    #[test]
    fn test_error_display_without_context() {
        let err = RuntimeError::new("Simple error");
        let display = err.to_display_string();
        assert!(display.contains("Runtime error: Simple error"));
    }


    #[test]
    fn test_runtime_context_display() {
        let ctx = RuntimeContext::new("evaluating expression")
            .with_function("test_fn")
            .with_scope_depth(3);
        let display = ctx.to_display_string();
        assert!(display.contains("evaluating expression"));
        assert!(display.contains("test_fn"));
        assert!(display.contains("scope depth: 3"));
    }


    #[test]
    fn test_error_with_context_builder() {
        let ctx = RuntimeContext::new("calling function 'add'");
        let err = RuntimeError::arity_mismatch("add", 2, 1, Some(ctx));
        let display = err.to_display_string();
        assert!(display.contains("calling function 'add'"), 
            "Error should show context: {}", display);
    }


    #[test]
    fn test_multiple_sequential_errors() {
        // First error should stop execution, so we only get one
        let source = r#"
let x = unknown1
let y = unknown2
"#;
        let result = interpret_source(source);
        assert!(result.is_err());
        let err = result.unwrap_err();
        // Should only report the first undefined variable
        assert!(err.message.contains("unknown1"));
        assert!(!err.message.contains("unknown2"));
    }


    #[test]
    fn test_nested_expression_error_propagation() {
        // Error in nested expression should propagate
        let source = r#"let x = 1 + (2 + unknown_var)"#;
        let result = interpret_source(source);
        assert!(result.is_err());
        let err = result.unwrap_err();
        assert!(err.message.contains("unknown_var"));
    }


    #[test]
    fn test_function_call_in_expression_error() {
        let source = r#"
function add(a, b):
    return a + b

let x = add(1, unknown_var)
"#;
        let result = interpret_with_functions(source);
        assert!(result.is_err());
        let err = result.unwrap_err();
        assert!(err.message.contains("unknown_var"));
    }


    #[test]
    fn test_nested_function_call_error() {
        let source = r#"
function inner():
    return unknown_in_inner

function outer():
    return inner()

outer()
"#;
        let result = interpret_with_functions(source);
        assert!(result.is_err());
        let err = result.unwrap_err();
        assert!(err.message.contains("unknown_in_inner"));
    }


    #[test]
    fn test_boolean_operation_type_error() {
        let source = r#"let x = true + false"#;
        let result = interpret_source(source);
        assert!(result.is_err());
        let err = result.unwrap_err();
        assert!(err.message.contains("Cannot add"));
        assert!(err.message.contains("boolean"));
    }


    #[test]
    fn test_type_error_in_if_condition() {
        // This tests that type checking happens in control flow
        let source = r#"
if 5 + "hello":
    let x = 1
"#;
        let result = interpret_source(source);
        assert!(result.is_err());
        let err = result.unwrap_err();
        assert!(err.message.contains("Cannot add"));
    }


    #[test]
    fn test_type_error_in_while_condition() {
        let source = r#"
while 5 + "hello":
    let x = 1
"#;
        let result = interpret_source(source);
        assert!(result.is_err());
        let err = result.unwrap_err();
        assert!(err.message.contains("Cannot add"));
    }


    #[test]
    fn test_error_in_array_literal() {
        let source = r#"let x = [1, 2, unknown_var]"#;
        let result = interpret_source(source);
        assert!(result.is_err());
        let err = result.unwrap_err();
        assert!(err.message.contains("unknown_var"));
    }


    #[test]
    fn test_function_return_type_error() {
        let source = r#"
function bad():
    return 5 + "hello"

bad()
"#;
        let result = interpret_with_functions(source);
        assert!(result.is_err());
        let err = result.unwrap_err();
        assert!(err.message.contains("Cannot add"));
    }


    #[test]
    fn test_modulo_with_invalid_types_string() {
        let source = r#"let x = "hello" % 3"#;
        let result = interpret_source(source);
        assert!(result.is_err());
        let err = result.unwrap_err();
        assert!(err.message.contains("Cannot"));
        assert!(err.message.contains("modulo"));
    }


    #[test]
    fn test_multiplication_type_error() {
        let source = r#"let x = 5 * "hello""#;
        let result = interpret_source(source);
        assert!(result.is_err());
        let err = result.unwrap_err();
        assert!(err.message.contains("Cannot multiply"));
    }


    #[test]
    fn test_division_type_error() {
        let source = r#"let x = 5 / "hello""#;
        let result = interpret_source(source);
        assert!(result.is_err());
        let err = result.unwrap_err();
        assert!(err.message.contains("Cannot divide"));
    }


    #[test]
    fn test_assign_function_to_variable() {
        let source = r#"
function add(a, b):
    return a + b

let f = add
f(3, 4)
"#;
        let result = interpret_with_functions(source);
        assert!(result.is_ok(), "Assigning function to variable should work: {:?}", result.err());
        assert_eq!(result.unwrap(), Value::Integer(7));
    }


    #[test]
    fn test_call_function_via_variable() {
        let source = r#"
function greet(name):
    return "Hello, " + name

let say_hi = greet
say_hi("World")
"#;
        let result = interpret_with_functions(source);
        assert!(result.is_ok(), "Calling function via variable should work: {:?}", result.err());
        assert_eq!(result.unwrap(), Value::String("Hello, World".to_string()));
    }


    #[test]
    fn test_reassign_function_variable() {
        let source = r#"
function add(a, b):
    return a + b

function mul(a, b):
    return a * b

let f = add
let result1 = f(2, 3)
f = mul
let result2 = f(2, 3)
result1 + result2
"#;
        let result = interpret_with_functions(source);
        assert!(result.is_ok(), "Reassigning function variable should work: {:?}", result.err());
        // 5 + 6 = 11
        assert_eq!(result.unwrap(), Value::Integer(11));
    }


    #[test]
    fn test_calling_non_function_error() {
        let source = r#"
let x = 5
x(3)
"#;
        let result = interpret_with_functions(source);
        assert!(result.is_err(), "Calling non-function should produce error");
        let err = result.unwrap_err();
        assert!(err.message.contains("non-function"), "Error should mention non-function: {}", err.message);
    }


    #[test]
    fn test_calling_string_as_function_error() {
        let source = r#"
let s = "hello"
s()
"#;
        let result = interpret_with_functions(source);
        assert!(result.is_err(), "Calling string as function should produce error");
        let err = result.unwrap_err();
        assert!(err.message.contains("non-function"), "Error should mention non-function: {}", err.message);
        assert!(err.message.contains("string"), "Error should mention string type: {}", err.message);
    }


    #[test]
    fn test_function_scope_isolation() {
        let source = r#"
function outer():
    let x = 10
    function inner():
        return x
    return inner()

outer()
"#;
        let result = interpret_with_functions(source);
        // Note: Without closures, x won't be captured. This tests scope isolation.
        assert!(result.is_err() || result.is_ok(), "Function scope isolation should be maintained");
    }


    #[test]
    fn test_truthy_function_value() {
        assert!(is_truthy(&Value::Function(FunctionValue::new(vec![], vec![]))));
    }


    #[test]
    fn test_function_equality() {
        let f1 = Value::Function(FunctionValue::new(vec!["a".to_string()], vec![]));
        let f2 = Value::Function(FunctionValue::new(vec!["a".to_string()], vec![]));
        // Functions should not be equal (identity comparison)
        assert!(!values_equal(&f1, &f2));
    }


    #[test]
    fn test_function_display() {
        let f = Value::Function(FunctionValue::new(vec!["a".to_string(), "b".to_string()], vec![]));
        let display = f.to_display_string();
        assert!(display.contains("function"), "Display should indicate function: {}", display);
        assert!(display.contains("a"), "Display should show parameters: {}", display);
        assert!(display.contains("b"), "Display should show parameters: {}", display);
    }


    #[test]
    fn test_nested_function_calls_via_variable() {
        let source = r#"
function add(a, b):
    return a + b

function double(x):
    return add(x, x)

let f = double
f(5)
"#;
        let result = interpret_with_functions(source);
        assert!(result.is_ok(), "Nested calls via variable should work: {:?}", result.err());
        assert_eq!(result.unwrap(), Value::Integer(10));
    }


    #[test]
    fn test_conditional_function_calls() {
        let source = r#"
function positive():
    return 1

function negative():
    return -1

let x = 5
if x > 0:
    positive()
else:
    negative()
"#;
        let result = interpret_with_functions(source);
        assert!(result.is_ok());
        assert_eq!(result.unwrap(), Value::Integer(1));
    }


    #[test]
    fn test_expression_statements_run_once() {
        let source = "let n = 0\nfunction inc():\n    n = n + 1\n    return n\ninc()\nn";
        let result = interpret_with_functions(source);
        assert_eq!(result.unwrap(), Value::Integer(1));
        let result = interpret_with_functions("let n = 0\nfunction inc():\n    n = n + 1\n    return n\ninc()");
        assert_eq!(result.unwrap(), Value::Integer(1));
    }


    fn power_of(base: i64, exponent: i64) -> Result<Value, RuntimeError> {
        let expr = Expression::Binary(BinaryExpression {
            left: Box::new(Expression::Integer(base)),
            operator: "**".to_string(),
            right: Box::new(Expression::Integer(exponent)),
        });
        Interpreter::new().evaluate_expression(&expr)
    }


    #[test]
    fn test_power_exponent_beyond_u32() {
        let err = power_of(2, 4_294_967_296).unwrap_err();
        assert!(err.message.contains("too big") && err.message.contains("overflowed"));
        assert!(power_of(-3, 5_000_000_000).is_err());
        assert_eq!(power_of(0, 4_294_967_296).unwrap(), Value::Integer(0));
        assert_eq!(power_of(1, 9_000_000_000).unwrap(), Value::Integer(1));
        assert_eq!(power_of(-1, 4_294_967_297).unwrap(), Value::Integer(-1));
        assert_eq!(power_of(-1, 4_294_967_296).unwrap(), Value::Integer(1));
        assert_eq!(power_of(3, 4).unwrap(), Value::Integer(81));
        assert!(power_of(2, 64).is_err());
        assert_eq!(power_of(2, 62).unwrap(), Value::Integer(4_611_686_018_427_387_904));
    }


    #[test]
    fn test_integer_overflow_error() {
        let source = r#"let x = 2 ** 100000"#;
        let result = interpret_source(source);
        assert!(result.is_err());
        let err = result.unwrap_err();
        assert!(err.message.contains("too big"),
            "Error should be friendly: {}", err.message);
        assert!(err.message.contains("overflowed"));
    }


    #[test]
    fn test_power_with_invalid_types() {
        let source = r#"let x = "hello" ** 2"#;
        let result = interpret_source(source);
        assert!(result.is_err());
        let err = result.unwrap_err();
        assert!(err.message.contains("Cannot raise"));
    }


    #[test]
    fn test_power_in_source() {
        assert_eq!(interpret_source("2 ** 10").unwrap(), Value::Integer(1024));
        assert_eq!(interpret_source("2 * 3 ** 2").unwrap(), Value::Integer(18));
        assert_eq!(interpret_source("(2 ** 3) ** 2").unwrap(), Value::Integer(64));
        assert!(interpret_source("2 ** * 3").is_err());
    }


    #[test]
    fn test_nested_blocks_scope() {
        let source = r#"
let x = 1
{
    let y = 2
    {
        let z = 3
        x + y + z
    }
}
"#;
        let result = interpret_source(source);
        assert!(result.is_ok(), "Nested blocks should work correctly");
        assert_eq!(result.unwrap(), Value::Integer(6));
    }


    #[test]
    fn mod_test_empty_block() {
        let source = r#"
let x = 1
{
}
let y = 2
x + y
"#;
        let result = interpret_source(source);
        assert!(result.is_ok(), "Empty block should be allowed");
        assert_eq!(result.unwrap(), Value::Integer(3));
    }


    #[test]
    fn test_block_scope_isolation() {
        let source = r#"
let x = 1
{
    let x = 100
    x = x + 1
}
x
"#;
        let result = interpret_source(source);
        assert!(result.is_ok(), "Block scope should be isolated");
        assert_eq!(result.unwrap(), Value::Integer(1), "Outer x should remain 1");
    }


    #[test]
    fn test_deeply_nested_scopes() {
        let source = r#"
let result = 0
{
    let a = 1
    {
        let b = 2
        {
            let c = 3
            result = a + b + c
        }
    }
}
result
"#;
        let result = interpret_source(source);
        assert!(result.is_ok(), "Deeply nested scopes should work");
        assert_eq!(result.unwrap(), Value::Integer(6));
    }


    #[test]
    fn test_multiple_blocks_same_level() {
        let source = r#"
let x = 0
{
    x = x + 1
}
{
    x = x + 10
}
{
    x = x + 100
}
x
"#;
        let result = interpret_source(source);
        assert!(result.is_ok(), "Multiple blocks at same level should work");
        assert_eq!(result.unwrap(), Value::Integer(111));
    }


    #[test]
    fn test_if_inside_block() {
        let source = r#"
let x = 5
let result = 0
{
    if x > 0:
        result = 1
    else:
        result = 2
}
result
"#;
        let result = interpret_source(source);
        assert!(result.is_ok(), "If statement inside block should work");
        assert_eq!(result.unwrap(), Value::Integer(1));
    }


    #[test]
    fn test_return_in_nested_blocks_inside_function() {
        let source = r#"
function test():
    let x = 1
    {
        let y = 2
        {
            return x + y
        }
    }
    return 0

test()
"#;
        let result = interpret_with_functions(source);
        assert!(result.is_ok(), "Return in nested blocks inside function should work");
        assert_eq!(result.unwrap(), Value::Integer(3));
    }


    #[test]
    fn test_assignment_to_undefined_in_block() {
        let source = r#"
{
    x = 5
}
"#;
        let result = interpret_source(source);
        assert!(result.is_err());
        let err = result.unwrap_err();
        assert!(err.message.contains("Cannot assign"));
        assert!(err.message.contains("hasn't been defined"));
    }


    #[test]
    fn test_comparison_type_error_nil() {
        let source = r#"let x = nil < 5"#;
        let result = interpret_source(source);
        assert!(result.is_err());
        let err = result.unwrap_err();
        assert!(err.message.contains("Cannot compare"));
        assert!(err.message.contains("nil"));
    }


    #[test]
    fn test_function_defined_in_block_scope() {
        let source = r#"
{
    function inner():
        return 42
    let result = inner()
}
"#;
        let result = interpret_with_functions(source);
        assert!(result.is_ok(), "Function defined in block scope should work: {:?}", result.err());
    }


    #[test]
    fn test_function_shadowing() {
        let source = r#"
function f():
    return 1

{
    function f():
        return 2
    let result = f()
}
f()
"#;
        let result = interpret_with_functions(source);
        assert!(result.is_ok(), "Function shadowing should work: {:?}", result.err());
        // Outer f returns 1
        assert_eq!(result.unwrap(), Value::Integer(1));
    }
