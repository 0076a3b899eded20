use veltrix::lexer::Lexer;
use veltrix::parser::Parser;
use veltrix::parser::ast;
use veltrix::parser::ast::Program;
use veltrix::parser::error::ParserError;


    fn parse_source(source: &str) -> Result<Program, ParserError> {
        let mut lexer = Lexer::new(source);
        let tokens = lexer.tokenize().map_err(|e| ParserError {
            message: e.message,
            line: e.line,
            column: e.column,
        })?;
        let mut parser = Parser::new(tokens);
        parser.parse_program()
    }


    #[test]
    fn test_let_declaration() {
        let result = parse_source("let x = 5");
        assert!(result.is_ok(), "let declaration should parse: {:?}", result.err());
        let program = result.unwrap();
        assert_eq!(program.statements.len(), 1);
        match &program.statements[0] {
            ast::Statement::Let(let_stmt) => {
                assert_eq!(let_stmt.name, "x");
            }
            _ => panic!("Expected Let statement"),
        }
    }


    #[test]
    fn test_reassignment() {
        let result = parse_source("let x = 5\nx = 10");
        assert!(result.is_ok(), "reassignment should parse: {:?}", result.err());
        let program = result.unwrap();
        assert_eq!(program.statements.len(), 2);
        match &program.statements[1] {
            ast::Statement::Assignment(assign) => {
                assert_eq!(assign.name, "x");
            }
            _ => panic!("Expected Assignment statement"),
        }
    }


    #[test]
    fn test_write_statement() {
        let result = parse_source("write 42");
        assert!(result.is_ok(), "write statement should parse: {:?}", result.err());
        let program = result.unwrap();
        assert_eq!(program.statements.len(), 1);
        match &program.statements[0] {
            ast::Statement::Write(_) => {}
            _ => panic!("Expected Write statement"),
        }
    }


    #[test]
    fn test_nested_if_else() {
        let source = "if true:\n    if false:\n        write 1\n    else:\n        write 2";
        let result = parse_source(source);
        assert!(result.is_ok(), "nested if/else should parse: {:?}", result.err());
        let program = result.unwrap();
        assert_eq!(program.statements.len(), 1);
    }


    #[test]
    fn test_nested_loops() {
        let source = "for i in [1, 2]:\n    for j in [3, 4]:\n        write i";
        let result = parse_source(source);
        assert!(result.is_ok(), "nested loops should parse: {:?}", result.err());
    }


    #[test]
    fn test_function_declaration() {
        let source = "function foo():\n    write 1";
        let result = parse_source(source);
        assert!(result.is_ok(), "function declaration should parse: {:?}", result.err());
        let program = result.unwrap();
        match &program.statements[0] {
            ast::Statement::FunctionDeclaration(func) => {
                assert_eq!(func.name, "foo");
                assert_eq!(func.params.len(), 0);
                assert_eq!(func.body.len(), 1);
            }
            _ => panic!("Expected FunctionDeclaration"),
        }
    }


    #[test]
    fn test_function_with_single_param() {
        let source = "function greet(name):\n    write name";
        let result = parse_source(source);
        assert!(result.is_ok(), "function with param should parse: {:?}", result.err());
        let program = result.unwrap();
        match &program.statements[0] {
            ast::Statement::FunctionDeclaration(func) => {
                assert_eq!(func.name, "greet");
                assert_eq!(func.params, vec!["name"]);
            }
            _ => panic!("Expected FunctionDeclaration"),
        }
    }


    #[test]
    fn test_function_with_multiple_params() {
        let source = "function add(a, b):\n    return a + b";
        let result = parse_source(source);
        assert!(result.is_ok(), "function with multiple params should parse: {:?}", result.err());
        let program = result.unwrap();
        match &program.statements[0] {
            ast::Statement::FunctionDeclaration(func) => {
                assert_eq!(func.name, "add");
                assert_eq!(func.params, vec!["a", "b"]);
            }
            _ => panic!("Expected FunctionDeclaration"),
        }
    }


    #[test]
    fn test_function_with_trailing_comma() {
        let source = "function foo(a, b,):\n    write 1";
        let result = parse_source(source);
        assert!(result.is_ok(), "function with trailing comma should parse: {:?}", result.err());
        let program = result.unwrap();
        match &program.statements[0] {
            ast::Statement::FunctionDeclaration(func) => {
                assert_eq!(func.params, vec!["a", "b"]);
            }
            _ => panic!("Expected FunctionDeclaration"),
        }
    }


    #[test]
    fn test_return_without_expression() {
        let source = "function foo():\n    return";
        let result = parse_source(source);
        assert!(result.is_ok(), "return without expression should parse: {:?}", result.err());
    }


    #[test]
    fn test_return_with_expression() {
        let source = "function foo():\n    return 42";
        let result = parse_source(source);
        assert!(result.is_ok(), "return with expression should parse: {:?}", result.err());
        let program = result.unwrap();
        match &program.statements[0] {
            ast::Statement::FunctionDeclaration(func) => {
                match &func.body[0] {
                    ast::Statement::Return(ret) => {
                        assert!(ret.value.is_some());
                    }
                    _ => panic!("Expected Return statement"),
                }
            }
            _ => panic!("Expected FunctionDeclaration"),
        }
    }


    #[test]
    fn test_for_loop_with_array() {
        let source = "for x in [1, 2, 3]:\n    write x";
        let result = parse_source(source);
        assert!(result.is_ok(), "for loop with array should parse: {:?}", result.err());
        let program = result.unwrap();
        match &program.statements[0] {
            ast::Statement::For(for_stmt) => {
                assert_eq!(for_stmt.item, "x");
            }
            _ => panic!("Expected For statement"),
        }
    }


    #[test]
    fn test_while_loop() {
        let source = "while true:\n    write 1";
        let result = parse_source(source);
        assert!(result.is_ok(), "while loop should parse: {:?}", result.err());
        let program = result.unwrap();
        match &program.statements[0] {
            ast::Statement::While(_) => {}
            _ => panic!("Expected While statement"),
        }
    }


    #[test]
    fn test_complex_expression_inside_if() {
        let source = "if (x + 5) > 10 and y < 20:\n    write 1";
        let result = parse_source(source);
        assert!(result.is_ok(), "complex expression in if should parse: {:?}", result.err());
    }


    #[test]
    fn test_nested_blocks_3_levels() {
        let source = "if true:\n    if true:\n        if true:\n            write 1";
        let result = parse_source(source);
        assert!(result.is_ok(), "3-level nested blocks should parse: {:?}", result.err());
    }


    #[test]
    fn mod_test_empty_file() {
        let result = parse_source("");
        assert!(result.is_ok(), "empty file should parse: {:?}", result.err());
        let program = result.unwrap();
        assert_eq!(program.statements.len(), 0);
    }


    #[test]
    fn test_multiple_statements() {
        let source = "let a = 1\nlet b = 2\nwrite a + b";
        let result = parse_source(source);
        assert!(result.is_ok(), "multiple statements should parse: {:?}", result.err());
        let program = result.unwrap();
        assert_eq!(program.statements.len(), 3);
    }


    #[test]
    fn test_boolean_literals() {
        let source = "let t = true\nlet f = false";
        let result = parse_source(source);
        assert!(result.is_ok(), "boolean literals should parse: {:?}", result.err());
    }


    #[test]
    fn test_string_literal() {
        let source = "let s = \"hello world\"";
        let result = parse_source(source);
        assert!(result.is_ok(), "string literal should parse: {:?}", result.err());
    }


    #[test]
    fn test_empty_array() {
        let source = "let arr = []";
        let result = parse_source(source);
        assert!(result.is_ok(), "empty array should parse: {:?}", result.err());
    }


    #[test]
    fn test_unary_operators() {
        let source = "let a = -5\nlet b = not true";
        let result = parse_source(source);
        assert!(result.is_ok(), "unary operators should parse: {:?}", result.err());
    }


    #[test]
    fn test_expression_statement_binary() {
        let result = parse_source("5 + 3");
        assert!(result.is_ok(), "expression statement 5 + 3 should parse: {:?}", result.err());
        let program = result.unwrap();
        assert_eq!(program.statements.len(), 1);
        match &program.statements[0] {
            ast::Statement::Expression(expr) => {
                assert!(matches!(expr, ast::Expression::Binary(_)));
            }
            _ => panic!("Expected Expression statement"),
        }
    }


    #[test]
    fn test_expression_statement_identifier() {
        let result = parse_source("x");
        assert!(result.is_ok(), "expression statement x should parse: {:?}", result.err());
        let program = result.unwrap();
        assert_eq!(program.statements.len(), 1);
        match &program.statements[0] {
            ast::Statement::Expression(expr) => {
                assert!(matches!(expr, ast::Expression::Identifier(_)));
            }
            _ => panic!("Expected Expression statement"),
        }
    }


    #[test]
    fn test_expression_statement_function_call() {
        let result = parse_source("foo()");
        assert!(result.is_ok(), "expression statement foo() should parse: {:?}", result.err());
        let program = result.unwrap();
        assert_eq!(program.statements.len(), 1);
        match &program.statements[0] {
            ast::Statement::Expression(expr) => {
                assert!(matches!(expr, ast::Expression::FunctionCall(_)));
            }
            _ => panic!("Expected Expression statement"),
        }
    }


    #[test]
    fn test_expression_statement_unary() {
        let result = parse_source("-5");
        assert!(result.is_ok(), "expression statement -5 should parse: {:?}", result.err());
        let program = result.unwrap();
        assert_eq!(program.statements.len(), 1);
        match &program.statements[0] {
            ast::Statement::Expression(expr) => assert!(matches!(expr, ast::Expression::Unary(_))),
            _ => panic!("Expected Expression statement"),
        }
    }


    #[test]
    fn test_expression_statement_nested() {
        let result = parse_source("(5 + 3) * 2");
        assert!(result.is_ok(), "expression statement (5 + 3) * 2 should parse: {:?}", result.err());
        let program = result.unwrap();
        assert_eq!(program.statements.len(), 1);
        match &program.statements[0] {
            ast::Statement::Expression(_) => {}
            _ => panic!("Expected Expression statement"),
        }
    }


    #[test]
    fn test_expression_statement_true_nil() {
        let result = parse_source("true");
        assert!(result.is_ok(), "expression statement true should parse: {:?}", result.err());
        let program = result.unwrap();
        assert_eq!(program.statements.len(), 1);
        match &program.statements[0] {
            ast::Statement::Expression(expr) => assert!(matches!(expr, ast::Expression::Boolean(true))),
            _ => panic!("Expected Expression statement"),
        }
    }


    #[test]
    fn test_invalid_standalone_rparen() {
        let result = parse_source(")");
        assert!(result.is_err(), "standalone ) should error");
    }


    #[test]
    fn test_invalid_standalone_leading_operator() {
        let result = parse_source("+ 5");
        assert!(result.is_err(), "leading + should error");
    }


    #[test]
    fn test_let_missing_identifier() {
        let result = parse_source("let = 5");
        assert!(result.is_err(), "let without identifier should error");
        let err = result.unwrap_err();
        assert!(err.message.contains("Expected identifier after 'let'"), 
            "Error should indicate missing identifier: {}", err.message);
    }


    #[test]
    fn test_let_missing_equals() {
        let result = parse_source("let x 5");
        assert!(result.is_err(), "let without = should error");
        let err = result.unwrap_err();
        assert!(err.message.contains("Expected Assign"), 
            "Error should indicate missing =: {}", err.message);
    }


    #[test]
    fn test_if_missing_colon() {
        let result = parse_source("if x > 5\n    write 1");
        assert!(result.is_err(), "if without colon should error");
        let err = result.unwrap_err();
        assert!(err.message.contains("Expected Colon") || err.message.contains("Expected indented block"),
            "Error should indicate missing colon: {}", err.message);
    }


    #[test]
    fn test_else_without_if() {
        let result = parse_source("else:\n    write 1");
        assert!(result.is_err(), "else without if should error");
        let err = result.unwrap_err();
        assert!(err.message.contains("else without matching if"),
            "Error should indicate else without if: {}", err.message);
    }


    #[test]
    fn test_for_missing_identifier() {
        let result = parse_source("for in [1,2]:\n    write 1");
        assert!(result.is_err(), "for without identifier should error");
        let err = result.unwrap_err();
        assert!(err.message.contains("Expected identifier after 'for'"),
            "Error should indicate missing identifier: {}", err.message);
    }


    #[test]
    fn test_function_missing_name() {
        let result = parse_source("function ():\n    write 1");
        assert!(result.is_err(), "function without name should error");
        let err = result.unwrap_err();
        assert!(err.message.contains("Expected function name after 'function'"),
            "Error should indicate missing function name: {}", err.message);
    }


    #[test]
    fn test_function_with_keyword_name() {
        let result = parse_source("function let():\n    write 1");
        assert!(result.is_err(), "function with keyword name should error");
    }


    #[test]
    fn test_function_double_comma() {
        let result = parse_source("function foo(a,,b):\n    write 1");
        assert!(result.is_err(), "double comma in params should error");
    }


    #[test]
    fn test_function_unmatched_paren() {
        let result = parse_source("function bar(a, b");
        assert!(result.is_err(), "unmatched paren should error");
    }


    #[test]
    fn test_function_missing_colon() {
        let result = parse_source("function foo()\n    write 1");
        assert!(result.is_err(), "function without colon should error");
        let err = result.unwrap_err();
        assert!(err.message.contains("Expected Colon"),
            "Error should indicate missing colon: {}", err.message);
    }


    #[test]
    fn test_while_missing_colon() {
        let result = parse_source("while true\n    write 1");
        assert!(result.is_err(), "while without colon should error");
    }


    #[test]
    fn test_double_operator() {
        let result = parse_source("let x = 1 + * 2");
        assert!(result.is_err(), "double operator should error");
        let err = result.unwrap_err();
        assert!(err.message.contains("Unexpected operator") || err.message.contains("Double operator"),
            "Error should indicate operator issue: {}", err.message);
    }


    #[test]
    fn test_unmatched_parentheses() {
        let result = parse_source("let x = (1 + 2");
        assert!(result.is_err(), "unmatched ( should error");
        let err = result.unwrap_err();
        assert!(err.message.contains("Expected ')'"),
            "Error should indicate missing ): {}", err.message);
    }


    #[test]
    fn test_unmatched_bracket() {
        let result = parse_source("let x = [1, 2");
        assert!(result.is_err(), "unmatched [ should error");
        let err = result.unwrap_err();
        assert!(err.message.contains("Expected ',' or ']'"),
            "Error should indicate missing ]: {}", err.message);
    }


    #[test]
    fn test_missing_colon_in_function() {
        let result = parse_source("function foo()\n    write 1");
        assert!(result.is_err(), "function without colon should error");
        let err = result.unwrap_err();
        assert!(err.message.contains("Expected Colon"),
            "Error should indicate missing colon: {}", err.message);
    }


    #[test]
    fn test_unexpected_token() {
        let result = parse_source("+ 5");
        assert!(result.is_err(), "unexpected operator at start should error");
        let err = result.unwrap_err();
        assert!(err.message.contains("Unexpected token") || err.message.contains("Unexpected operator"),
            "Error should indicate unexpected token: {}", err.message);
    }


    #[test]
    fn test_double_plus_error() {
        let result = parse_source("let x = 1 ++ 2");
        assert!(result.is_err(), "double plus should error");
    }


    #[test]
    fn test_missing_indent() {
        let result = parse_source("if true:\nwrite 1");
        assert!(result.is_err(), "missing indent should error");
        let err = result.unwrap_err();
        assert!(err.message.contains("Expected indented block"),
            "Error should indicate missing indent: {}", err.message);
    }


    #[test]
    fn test_empty_parens_error() {
        let result = parse_source("()");
        assert!(result.is_err(), "standalone empty parens should error");
    }


    #[test]
    fn test_operator_at_expression_start() {
        let result = parse_source("let x = * 5");
        assert!(result.is_err(), "operator at expression start should error");
        let err = result.unwrap_err();
        assert!(err.message.contains("Unexpected operator") || err.message.contains("Unexpected token"),
            "Error should indicate unexpected operator: {}", err.message);
    }


    #[test]
    fn test_if_without_condition() {
        let result = parse_source("if:\n    write 1");
        assert!(result.is_err(), "if without condition should error");
    }


    #[test]
    fn test_for_without_in() {
        let result = parse_source("for x [1,2]:\n    write 1");
        assert!(result.is_err(), "for without in should error");
        let err = result.unwrap_err();
        assert!(err.message.contains("Expected In"),
            "Error should indicate missing 'in': {}", err.message);
    }


    #[test]
    fn test_assignment_to_non_identifier() {
        let result = parse_source("5 = 10");
        assert!(result.is_err(), "assignment to literal should error");
    }


    #[test]
    fn test_deeply_nested_blocks() {
        let source = "if true:\n    if true:\n        if true:\n            if true:\n                if true:\n                    write 1";
        let result = parse_source(source);
        assert!(result.is_ok(), "5-level nested blocks should parse: {:?}", result.err());
    }


    #[test]
    fn test_eof_in_expression() {
        let result = parse_source("let x = 1 +");
        assert!(result.is_err(), "EOF in expression should error");
    }


    #[test]
    fn test_error_line_column() {
        let result = parse_source("let x = 5\nlet = 10");
        assert!(result.is_err());
        let err = result.unwrap_err();
        assert_eq!(err.line, 2, "Error should be on line 2");
        assert!(err.column > 0, "Error should have column > 0");
    }
