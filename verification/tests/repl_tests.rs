use veltrix::interpreter::Value;
use veltrix::repl::{
    evaluate_line, evaluate_lines, read_input_line, EvalResult, InputStatus, ReadResult, Repl,
};


    #[test]
    fn test_repl_creation() {
        let repl = Repl::new();
        assert!(repl.multi_line_buffer.is_empty());
        assert_eq!(repl.indent_level, 0);
    }


    #[test]
    fn test_evaluate_simple_expression() {
        let result = evaluate_line("5 + 3");
        assert!(
            matches!(result, EvalResult::Value(Value::Integer(8))),
            "Expected Value(8), got {:?}",
            result
        );
    }


    #[test]
    fn test_evaluate_variable_declaration() {
        let result = evaluate_line("let x = 42");
        assert!(matches!(result, EvalResult::Done), "Expected Ok, got {:?}", result);
    }


    #[test]
    fn test_evaluate_multiple_statements() {
        let results = evaluate_lines(&["let x = 5", "let y = 10", "x + y"]);
        assert!(matches!(results[0], EvalResult::Done));
        assert!(matches!(results[1], EvalResult::Done));
        assert!(
            matches!(results[2], EvalResult::Value(Value::Integer(15))),
            "Expected Value(15), got {:?}",
            results[2]
        );
    }


    #[test]
    fn test_evaluate_function_definition() {
        let result = evaluate_line("function add(a, b):\n    return a + b");
        assert!(
            matches!(result, EvalResult::FunctionDefined(ref name) if name == "add"),
            "Expected FunctionDefined, got {:?}",
            result
        );
    }


    #[test]
    fn test_persistent_environment() {
        let mut repl = Repl::new();

        // Define a variable
        let result1 = repl.evaluate_input("let x = 100");
        assert!(matches!(result1, EvalResult::Done));

        // Use the variable in a new expression
        let result2 = repl.evaluate_input("x + 1");
        assert!(
            matches!(result2, EvalResult::Value(Value::Integer(101))),
            "Expected 101, got {:?}",
            result2
        );
    }


    #[test]
    fn test_function_call_after_definition() {
        let mut repl = Repl::new();

        // Define a function
        let result1 = repl.evaluate_input("function double(x):\n    return x * 2");
        assert!(matches!(result1, EvalResult::FunctionDefined(_)));

        // Call the function
        let result2 = repl.evaluate_input("double(5)");
        assert!(
            matches!(result2, EvalResult::Value(Value::Integer(10))),
            "Expected 10, got {:?}",
            result2
        );
    }


    #[test]
    fn test_undefined_variable_error() {
        let result = evaluate_line("unknown_var + 5");
        assert!(
            matches!(result, EvalResult::Error(_)),
            "Expected Error, got {:?}",
            result
        );
        if let EvalResult::Error(err) = result {
            assert!(err.message.contains("don't know"));
        }
    }


    #[test]
    fn test_runtime_error_recovery() {
        let mut repl = Repl::new();

        // First, a valid statement
        let result1 = repl.evaluate_input("let x = 10");
        assert!(matches!(result1, EvalResult::Done));

        // Then an error
        let result2 = repl.evaluate_input("x / 0");
        assert!(matches!(result2, EvalResult::Error(_)));

        // Environment should still be intact - can use x again
        let result3 = repl.evaluate_input("x + 5");
        assert!(
            matches!(result3, EvalResult::Value(Value::Integer(15))),
            "Expected recovery with value 15, got {:?}",
            result3
        );
    }


    #[test]
    fn test_parse_error_handling() {
        let result = evaluate_line("let x = ");
        assert!(
            matches!(result, EvalResult::ParseError(_)),
            "Expected ParseError, got {:?}",
            result
        );
    }


    #[test]
    fn test_if_statement_in_repl() {
        let mut repl = Repl::new();

        let result1 = repl.evaluate_input("let x = 5");
        assert!(matches!(result1, EvalResult::Done));

        let result2 = repl.evaluate_input("if x > 3:\n    let y = 10\ny");
        // Should execute and the last expression should return
        assert!(
            matches!(result2, EvalResult::Value(Value::Integer(10))),
            "Expected 10, got {:?}",
            result2
        );
    }


    #[test]
    fn test_while_loop_in_repl() {
        let mut repl = Repl::new();

        let result1 = repl.evaluate_input("let count = 0");
        assert!(matches!(result1, EvalResult::Done));

        let result2 = repl.evaluate_input("while count < 3:\n    count = count + 1\ncount");
        assert!(
            matches!(result2, EvalResult::Value(Value::Integer(3))),
            "Expected 3, got {:?}",
            result2
        );
    }


    #[test]
    fn test_for_loop_in_repl() {
        let mut repl = Repl::new();

        let result1 = repl.evaluate_input("let sum = 0");
        assert!(matches!(result1, EvalResult::Done));

        let result2 = repl.evaluate_input("for i in [1, 2, 3]:\n    sum = sum + i\nsum");
        assert!(
            matches!(result2, EvalResult::Value(Value::Integer(6))),
            "Expected 6, got {:?}",
            result2
        );
    }


    #[test]
    fn test_return_in_repl() {
        // In REPL, return is allowed and returns the value
        let result = evaluate_line("return 42");
        assert!(
            matches!(result, EvalResult::Value(Value::Integer(42))),
            "Expected 42, got {:?}",
            result
        );
    }


    #[test]
    fn test_is_complete_input_complete() {
        let repl = Repl::new();
        let status = repl.is_complete_input("let x = 5");
        assert!(matches!(status, InputStatus::Complete));
    }


    #[test]
    fn test_is_complete_input_incomplete() {
        let repl = Repl::new();
        // This should be incomplete because it expects more after the colon
        let status = repl.is_complete_input("function foo():");
        // Note: Depending on parser behavior, this might be Complete or Incomplete
        // The test documents current behavior
        assert!(
            matches!(status, InputStatus::Complete | InputStatus::Incomplete),
            "Got unexpected status: {:?}",
            status
        );
    }


    #[test]
    fn test_function_definition_persistence() {
        let mut repl = Repl::new();

        // Define the function
        let def = "function greet(name):\n    return name";
        let result1 = repl.evaluate_input(def);
        assert!(matches!(result1, EvalResult::FunctionDefined(_)));

        // Call it multiple times
        let result2 = repl.evaluate_input("greet(\"Alice\")");
        assert!(
            matches!(result2, EvalResult::Value(Value::String(ref s)) if s == "Alice")
        );

        let result3 = repl.evaluate_input("greet(\"Bob\")");
        assert!(
            matches!(result3, EvalResult::Value(Value::String(ref s)) if s == "Bob")
        );
    }


    #[test]
    fn test_empty_input() {
        let result = evaluate_line("");
        // Empty input might return Ok or Value(Nil) depending on implementation
        assert!(
            matches!(result, EvalResult::Done | EvalResult::ParseError(_)),
            "Got unexpected result: {:?}",
            result
        );
    }


    #[test]
    fn test_comment_handling() {
        // If comments are supported
        let result = evaluate_line("5 + 3  # This is a comment");
        // This depends on whether lexer supports comments
        assert!(
            matches!(result, EvalResult::Value(_) | EvalResult::ParseError(_)),
            "Got: {:?}",
            result
        );
    }


    #[test]
    fn test_variable_reassignment() {
        let mut repl = Repl::new();

        let result1 = repl.evaluate_input("let x = 5");
        assert!(matches!(result1, EvalResult::Done));

        let result2 = repl.evaluate_input("x = 10");
        assert!(matches!(result2, EvalResult::Done));

        let result3 = repl.evaluate_input("x");
        assert!(
            matches!(result3, EvalResult::Value(Value::Integer(10))),
            "Expected 10, got {:?}",
            result3
        );
    }


    #[test]
    fn repl_test_nested_function_calls() {
        let mut repl = Repl::new();

        // Define nested functions
        let def1 = repl.evaluate_input("function add(a, b):\n    return a + b");
        assert!(matches!(def1, EvalResult::FunctionDefined(_)));

        let def2 = repl.evaluate_input("function double(x):\n    return add(x, x)");
        assert!(matches!(def2, EvalResult::FunctionDefined(_)));

        // Call nested function
        let result = repl.evaluate_input("double(5)");
        assert!(
            matches!(result, EvalResult::Value(Value::Integer(10))),
            "Expected 10, got {:?}",
            result
        );
    }


    #[test]
    fn test_read_input_line_exit() {
        let result = read_input_line("exit");
        assert!(matches!(result, ReadResult::Complete(ref s) if s == "exit"));
    }


    #[test]
    fn test_complex_expression_evaluation() {
        let result = evaluate_line("(5 + 3) * 2 - 4 / 2");
        // (5 + 3) * 2 - 4 / 2 = 8 * 2 - 2 = 16 - 2 = 14
        assert!(
            matches!(result, EvalResult::Value(Value::Integer(14))),
            "Expected 14, got {:?}",
            result
        );
    }


    #[test]
    fn test_array_literal_evaluation() {
        let result = evaluate_line("[1, 2, 3]");
        assert!(
            matches!(result, EvalResult::Value(Value::Array(ref arr)) if arr.len() == 3),
            "Expected array, got {:?}",
            result
        );
    }


    #[test]
    fn test_string_concatenation_not_supported() {
        // Test that string + string works if supported, or fails appropriately
        let result = evaluate_line("\"hello\" + \"world\"");
        // If strings can be concatenated:
        assert!(
            matches!(result, EvalResult::Value(Value::String(ref s)) if s == "helloworld")
                || matches!(result, EvalResult::Error(_)),
            "String concatenation behavior: {:?}",
            result
        );
    }


    #[test]
    fn test_boolean_operations() {
        let result = evaluate_line("true and false");
        assert!(
            matches!(result, EvalResult::Value(Value::Boolean(false))),
            "Expected false, got {:?}",
            result
        );

        let result2 = evaluate_line("true or false");
        assert!(
            matches!(result2, EvalResult::Value(Value::Boolean(true))),
            "Expected true, got {:?}",
            result2
        );
    }


    #[test]
    fn test_comparison_operations() {
        let result = evaluate_line("5 < 10");
        assert!(
            matches!(result, EvalResult::Value(Value::Boolean(true))),
            "Expected true, got {:?}",
            result
        );

        let result2 = evaluate_line("5 == 5");
        assert!(
            matches!(result2, EvalResult::Value(Value::Boolean(true))),
            "Expected true, got {:?}",
            result2
        );
    }


    #[test]
    fn test_unary_operations() {
        let result = evaluate_line("-5");
        assert!(
            matches!(result, EvalResult::Value(Value::Integer(-5))),
            "Expected -5, got {:?}",
            result
        );

        let result2 = evaluate_line("not true");
        assert!(
            matches!(result2, EvalResult::Value(Value::Boolean(false))),
            "Expected false, got {:?}",
            result2
        );
    }


    #[test]
    fn test_write_statement_output() {
        // write statement prints to stdout, which we can't easily capture in unit tests
        // but we can verify it executes without error
        let result = evaluate_line("write 42");
        assert!(
            matches!(result, EvalResult::Done),
            "Expected Ok, got {:?}",
            result
        );
    }


    #[test]
    fn test_repl_expression_runs_once() {
        let mut repl = Repl::new();
        repl.evaluate_input("let n = 0");
        repl.evaluate_input("function inc():\n    n = n + 1\n    return n");
        let result = repl.evaluate_input("inc()");
        assert!(matches!(result, EvalResult::Value(Value::Integer(1))), "got {:?}", result);
        let result = repl.evaluate_input("n");
        assert!(matches!(result, EvalResult::Value(Value::Integer(1))), "got {:?}", result);
    }


    #[test]
    fn test_block_scope_in_repl() {
        let mut repl = Repl::new();

        let result1 = repl.evaluate_input("let x = 1");
        assert!(matches!(result1, EvalResult::Done));

        // Block with its own scope
        let result2 = repl.evaluate_input("{\n    let x = 100\n    x\n}");
        assert!(
            matches!(result2, EvalResult::Value(Value::Integer(100))),
            "Expected 100, got {:?}",
            result2
        );

        // Original x should still be 1
        let result3 = repl.evaluate_input("x");
        assert!(
            matches!(result3, EvalResult::Value(Value::Integer(1))),
            "Expected 1, got {:?}",
            result3
        );
    }


    #[test]
    fn test_nil_value() {
        let result = evaluate_line("nil");
        assert!(
            matches!(result, EvalResult::Value(Value::Nil)),
            "Expected nil, got {:?}",
            result
        );
    }
