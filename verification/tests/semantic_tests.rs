use std::sync::Arc;
use veltrix::lexer::Lexer;
use veltrix::native::{NativeFunctionRegistry, NativeFunctionRegistryBuilder};
use veltrix::parser::Parser;
use veltrix::parser::ast::{
    BinaryExpression, Expression, FunctionCallExpression, FunctionDeclaration, LetStatement,
    Program, Statement, UnaryExpression,
};
use veltrix::semantic::{FunctionTable, SemanticAnalyzer, SemanticError, Symbol};


    #[test]
    fn test_duplicate_in_same_scope() {
        let mut analyzer = SemanticAnalyzer::new();

        analyzer
            .declare_symbol("x", Symbol::Variable, 1, 1)
            .expect("First declaration should succeed");

        let result = analyzer.declare_symbol("x", Symbol::Variable, 2, 1);
        assert!(result.is_err());
        assert!(result.unwrap_err().message.contains("already declared"));
    }


    #[test]
    fn test_shadowing_allowed() {
        let mut analyzer = SemanticAnalyzer::new();

        analyzer
            .declare_symbol("x", Symbol::Variable, 1, 1)
            .expect("Global declaration should succeed");

        analyzer.enter_scope();

        let result = analyzer.declare_symbol("x", Symbol::Variable, 2, 1);
        assert!(result.is_ok());
    }


    #[test]
    fn test_resolve_from_outer_scope() {
        let mut analyzer = SemanticAnalyzer::new();

        analyzer
            .declare_symbol("x", Symbol::Variable, 1, 1)
            .expect("Declaration should succeed");

        analyzer.enter_scope();

        assert!(analyzer.resolve_symbol("x"));
    }


    #[test]
    fn test_exit_global_scope_error() {
        let mut analyzer = SemanticAnalyzer::new();

        let result = analyzer.exit_scope();
        assert!(result.is_err());
        assert!(result.unwrap_err().message.contains("global scope"));
    }


    #[test]
    fn test_undeclared_identifier_error() {
        let mut analyzer = SemanticAnalyzer::new();
        let expr = Expression::Identifier("x".to_string());

        let result = analyzer.analyze_expression(&expr, 1, 1);
        assert!(result.is_err());
        let err = result.unwrap_err();
        assert!(err.message.contains("Undeclared identifier"));
        assert!(err.message.contains("x"));
        assert_eq!(err.line, 1);
        assert_eq!(err.column, 1);
    }


    #[test]
    fn test_declared_identifier_ok() {
        let mut analyzer = SemanticAnalyzer::new();
        analyzer
            .declare_symbol("x", Symbol::Variable, 1, 1)
            .expect("Declaration should succeed");

        let expr = Expression::Identifier("x".to_string());
        let result = analyzer.analyze_expression(&expr, 2, 1);
        assert!(result.is_ok());
    }


    #[test]
    fn test_literal_integer_ok() {
        let mut analyzer = SemanticAnalyzer::new();
        let expr = Expression::Integer(42);

        let result = analyzer.analyze_expression(&expr, 1, 1);
        assert!(result.is_ok());
    }


    #[test]
    fn test_literal_string_ok() {
        let mut analyzer = SemanticAnalyzer::new();
        let expr = Expression::String("hello".to_string());

        let result = analyzer.analyze_expression(&expr, 1, 1);
        assert!(result.is_ok());
    }


    #[test]
    fn test_literal_boolean_ok() {
        let mut analyzer = SemanticAnalyzer::new();
        let expr = Expression::Boolean(true);

        let result = analyzer.analyze_expression(&expr, 1, 1);
        assert!(result.is_ok());
    }


    #[test]
    fn test_nested_binary_with_declared_variables_ok() {
        let mut analyzer = SemanticAnalyzer::new();
        analyzer
            .declare_symbol("x", Symbol::Variable, 1, 1)
            .expect("Declaration of x should succeed");
        analyzer
            .declare_symbol("y", Symbol::Variable, 1, 5)
            .expect("Declaration of y should succeed");

        // Expression: x + (y + 3)
        let inner_binary = Expression::Binary(BinaryExpression {
            left: Box::new(Expression::Identifier("y".to_string())),
            operator: "+".to_string(),
            right: Box::new(Expression::Integer(3)),
        });
        let outer_binary = Expression::Binary(BinaryExpression {
            left: Box::new(Expression::Identifier("x".to_string())),
            operator: "+".to_string(),
            right: Box::new(inner_binary),
        });

        let result = analyzer.analyze_expression(&outer_binary, 2, 1);
        assert!(result.is_ok());
    }


    #[test]
    fn test_nested_binary_undeclared_left_operand_error() {
        let mut analyzer = SemanticAnalyzer::new();

        // Expression: x + 5 (x not declared)
        let binary = Expression::Binary(BinaryExpression {
            left: Box::new(Expression::Identifier("x".to_string())),
            operator: "+".to_string(),
            right: Box::new(Expression::Integer(5)),
        });

        let result = analyzer.analyze_expression(&binary, 2, 1);
        assert!(result.is_err());
        let err = result.unwrap_err();
        assert!(err.message.contains("Undeclared identifier"));
        assert!(err.message.contains("x"));
    }


    #[test]
    fn test_nested_binary_undeclared_right_operand_error() {
        let mut analyzer = SemanticAnalyzer::new();
        analyzer
            .declare_symbol("x", Symbol::Variable, 1, 1)
            .expect("Declaration of x should succeed");

        // Expression: x + y (y not declared)
        let binary = Expression::Binary(BinaryExpression {
            left: Box::new(Expression::Identifier("x".to_string())),
            operator: "+".to_string(),
            right: Box::new(Expression::Identifier("y".to_string())),
        });

        let result = analyzer.analyze_expression(&binary, 2, 1);
        assert!(result.is_err());
        let err = result.unwrap_err();
        assert!(err.message.contains("Undeclared identifier"));
        assert!(err.message.contains("y"));
    }


    #[test]
    fn test_unary_expression_with_declared_variable_ok() {
        let mut analyzer = SemanticAnalyzer::new();
        analyzer
            .declare_symbol("x", Symbol::Variable, 1, 1)
            .expect("Declaration should succeed");

        // Expression: -x
        let unary = Expression::Unary(UnaryExpression {
            operator: "-".to_string(),
            right: Box::new(Expression::Identifier("x".to_string())),
        });

        let result = analyzer.analyze_expression(&unary, 2, 1);
        assert!(result.is_ok());
    }


    #[test]
    fn test_unary_expression_undeclared_operand_error() {
        let mut analyzer = SemanticAnalyzer::new();

        // Expression: -x (x not declared)
        let unary = Expression::Unary(UnaryExpression {
            operator: "-".to_string(),
            right: Box::new(Expression::Identifier("x".to_string())),
        });

        let result = analyzer.analyze_expression(&unary, 2, 1);
        assert!(result.is_err());
        let err = result.unwrap_err();
        assert!(err.message.contains("Undeclared identifier"));
        assert!(err.message.contains("x"));
    }


    #[test]
    fn test_array_with_declared_elements_ok() {
        let mut analyzer = SemanticAnalyzer::new();
        analyzer
            .declare_symbol("x", Symbol::Variable, 1, 1)
            .expect("Declaration of x should succeed");
        analyzer
            .declare_symbol("y", Symbol::Variable, 1, 5)
            .expect("Declaration of y should succeed");

        // Expression: [x, y, 3]
        let arr = Expression::Array(vec![
            Expression::Identifier("x".to_string()),
            Expression::Identifier("y".to_string()),
            Expression::Integer(3),
        ]);

        let result = analyzer.analyze_expression(&arr, 2, 1);
        assert!(result.is_ok());
    }


    #[test]
    fn test_array_with_undeclared_element_error() {
        let mut analyzer = SemanticAnalyzer::new();

        // Expression: [x, 3] (x not declared)
        let arr = Expression::Array(vec![
            Expression::Identifier("x".to_string()),
            Expression::Integer(3),
        ]);

        let result = analyzer.analyze_expression(&arr, 2, 1);
        assert!(result.is_err());
        let err = result.unwrap_err();
        assert!(err.message.contains("Undeclared identifier"));
        assert!(err.message.contains("x"));
    }


    #[test]
    fn test_deeply_nested_expression_ok() {
        let mut analyzer = SemanticAnalyzer::new();
        analyzer
            .declare_symbol("a", Symbol::Variable, 1, 1)
            .expect("Declaration should succeed");

        // Expression: ((a))
        // Grouping is transparent in the AST, so we model it as nested unary
        // Actually, let's create a deeply nested binary structure
        // Expression: a + (a + (a + a))
        let inner = Expression::Binary(BinaryExpression {
            left: Box::new(Expression::Identifier("a".to_string())),
            operator: "+".to_string(),
            right: Box::new(Expression::Identifier("a".to_string())),
        });
        let middle = Expression::Binary(BinaryExpression {
            left: Box::new(Expression::Identifier("a".to_string())),
            operator: "+".to_string(),
            right: Box::new(inner),
        });
        let outer = Expression::Binary(BinaryExpression {
            left: Box::new(Expression::Identifier("a".to_string())),
            operator: "+".to_string(),
            right: Box::new(middle),
        });

        let result = analyzer.analyze_expression(&outer, 2, 1);
        assert!(result.is_ok());
    }


    #[test]
    fn test_identifier_from_outer_scope_in_expression_ok() {
        let mut analyzer = SemanticAnalyzer::new();
        analyzer
            .declare_symbol("x", Symbol::Variable, 1, 1)
            .expect("Declaration should succeed");

        analyzer.enter_scope();

        let expr = Expression::Identifier("x".to_string());
        let result = analyzer.analyze_expression(&expr, 3, 1);
        assert!(result.is_ok(), "Should resolve identifier from outer scope");
    }


    #[test]
    fn test_fail_fast_first_error_reported() {
        let mut analyzer = SemanticAnalyzer::new();

        // Expression: x + y (both undeclared, should report x first)
        let binary = Expression::Binary(BinaryExpression {
            left: Box::new(Expression::Identifier("x".to_string())),
            operator: "+".to_string(),
            right: Box::new(Expression::Identifier("y".to_string())),
        });

        let result = analyzer.analyze_expression(&binary, 2, 1);
        assert!(result.is_err());
        let err = result.unwrap_err();
        assert!(err.message.contains("x"));
        // Should not mention y since we fail fast on x
        assert!(!err.message.contains("y"));
    }


    #[test]
    fn test_duplicate_variable_same_scope() {
        let mut analyzer = SemanticAnalyzer::new();

        // Program: let x = 5; let x = 10;
        let program = Program {
            statements: vec![
                Statement::Let(LetStatement {
                    name: "x".to_string(),
                    value: Expression::Integer(5),
                }),
                Statement::Let(LetStatement {
                    name: "x".to_string(),
                    value: Expression::Integer(10),
                }),
            ],
        };

        let result = analyzer.analyze_program(&program);
        assert!(result.is_err());
        let err = result.unwrap_err();
        assert!(err.message.contains("already declared"));
        assert!(err.message.contains("x"));
    }


    #[test]
    fn test_shadowing_nested_scope_allowed() {
        let mut analyzer = SemanticAnalyzer::new();

        // Program: let x = 5; { let x = 10; }
        let program = Program {
            statements: vec![
                Statement::Let(LetStatement {
                    name: "x".to_string(),
                    value: Expression::Integer(5),
                }),
                Statement::Block(vec![
                    Statement::Let(LetStatement {
                        name: "x".to_string(),
                        value: Expression::Integer(10),
                    }),
                ]),
            ],
        };

        let result = analyzer.analyze_program(&program);
        assert!(result.is_ok(), "Shadowing in nested scope should be allowed");
    }


    #[test]
    fn test_outer_variable_used_inside_block() {
        let mut analyzer = SemanticAnalyzer::new();

        // Program: let x = 5; { x; }
        let program = Program {
            statements: vec![
                Statement::Let(LetStatement {
                    name: "x".to_string(),
                    value: Expression::Integer(5),
                }),
                Statement::Block(vec![
                    Statement::Expression(Expression::Identifier("x".to_string())),
                ]),
            ],
        };

        let result = analyzer.analyze_program(&program);
        assert!(result.is_ok(), "Using outer variable inside block should be allowed");
    }


    #[test]
    fn test_undeclared_variable_in_block() {
        let mut analyzer = SemanticAnalyzer::new();

        // Program: { x; }
        let program = Program {
            statements: vec![
                Statement::Block(vec![
                    Statement::Expression(Expression::Identifier("x".to_string())),
                ]),
            ],
        };

        let result = analyzer.analyze_program(&program);
        assert!(result.is_err());
        let err = result.unwrap_err();
        assert!(err.message.contains("Undeclared identifier"));
        assert!(err.message.contains("x"));
    }


    #[test]
    fn test_let_with_initializer_valid() {
        let mut analyzer = SemanticAnalyzer::new();

        // Program: let x = 5;
        let program = Program {
            statements: vec![
                Statement::Let(LetStatement {
                    name: "x".to_string(),
                    value: Expression::Integer(5),
                }),
            ],
        };

        let result = analyzer.analyze_program(&program);
        assert!(result.is_ok(), "Let with valid initializer should succeed");
    }


    #[test]
    fn test_let_with_self_reference_invalid() {
        let mut analyzer = SemanticAnalyzer::new();

        // Program: let x = x; (x not declared before)
        let program = Program {
            statements: vec![
                Statement::Let(LetStatement {
                    name: "x".to_string(),
                    value: Expression::Identifier("x".to_string()),
                }),
            ],
        };

        let result = analyzer.analyze_program(&program);
        assert!(result.is_err(), "Self-reference without outer declaration should fail");
        let err = result.unwrap_err();
        assert!(err.message.contains("Undeclared identifier"));
        assert!(err.message.contains("x"));
    }


    #[test]
    fn test_let_with_outer_variable_reference_valid() {
        let mut analyzer = SemanticAnalyzer::new();

        // Program: let x = 5; let y = x;
        let program = Program {
            statements: vec![
                Statement::Let(LetStatement {
                    name: "x".to_string(),
                    value: Expression::Integer(5),
                }),
                Statement::Let(LetStatement {
                    name: "y".to_string(),
                    value: Expression::Identifier("x".to_string()),
                }),
            ],
        };

        let result = analyzer.analyze_program(&program);
        assert!(result.is_ok(), "Referencing outer variable in initializer should succeed");
    }


    #[test]
    fn mod_test_deeply_nested_blocks() {
        let mut analyzer = SemanticAnalyzer::new();

        // Program: let x = 5; { { { x; } } }
        let program = Program {
            statements: vec![
                Statement::Let(LetStatement {
                    name: "x".to_string(),
                    value: Expression::Integer(5),
                }),
                Statement::Block(vec![
                    Statement::Block(vec![
                        Statement::Block(vec![
                            Statement::Expression(Expression::Identifier("x".to_string())),
                        ]),
                    ]),
                ]),
            ],
        };

        let result = analyzer.analyze_program(&program);
        assert!(result.is_ok(), "Deeply nested blocks should resolve variables from outer scopes");
    }


    #[test]
    fn test_block_inside_block() {
        let mut analyzer = SemanticAnalyzer::new();

        // Program: let x = 5; { let y = x; { y; } }
        let program = Program {
            statements: vec![
                Statement::Let(LetStatement {
                    name: "x".to_string(),
                    value: Expression::Integer(5),
                }),
                Statement::Block(vec![
                    Statement::Let(LetStatement {
                        name: "y".to_string(),
                        value: Expression::Identifier("x".to_string()),
                    }),
                    Statement::Block(vec![
                        Statement::Expression(Expression::Identifier("y".to_string())),
                    ]),
                ]),
            ],
        };

        let result = analyzer.analyze_program(&program);
        assert!(result.is_ok(), "Block inside block should work correctly");
    }


    #[test]
    fn test_if_with_undeclared_condition() {
        let mut analyzer = SemanticAnalyzer::new();

        // Program: if (x) {}
        let program = Program {
            statements: vec![
                Statement::If(veltrix::parser::ast::IfStatement {
                    condition: Expression::Identifier("x".to_string()),
                    consequence: vec![],
                    alternative: None,
                }),
            ],
        };

        let result = analyzer.analyze_program(&program);
        assert!(result.is_err());
        let err = result.unwrap_err();
        assert!(err.message.contains("Undeclared identifier"));
        assert!(err.message.contains("x"));
    }


    #[test]
    fn test_if_with_valid_condition() {
        let mut analyzer = SemanticAnalyzer::new();

        // Program: let x; if (x) {}
        let program = Program {
            statements: vec![
                Statement::Let(LetStatement {
                    name: "x".to_string(),
                    value: Expression::Boolean(true),
                }),
                Statement::If(veltrix::parser::ast::IfStatement {
                    condition: Expression::Identifier("x".to_string()),
                    consequence: vec![],
                    alternative: None,
                }),
            ],
        };

        let result = analyzer.analyze_program(&program);
        assert!(result.is_ok(), "If with valid condition should succeed");
    }


    #[test]
    fn test_if_without_block_does_not_create_scope() {
        let mut analyzer = SemanticAnalyzer::new();

        // Program: if (true) let x = 1; x;
        // With correct semantics: if does NOT create scope, so x IS visible
        let program = Program {
            statements: vec![
                Statement::If(veltrix::parser::ast::IfStatement {
                    condition: Expression::Boolean(true),
                    consequence: vec![
                        Statement::Let(LetStatement {
                            name: "x".to_string(),
                            value: Expression::Integer(1),
                        }),
                    ],
                    alternative: None,
                }),
                Statement::Expression(Expression::Identifier("x".to_string())),
            ],
        };

        let result = analyzer.analyze_program(&program);
        assert!(result.is_ok(), "If without block should NOT create scope - x should be visible");
    }


    #[test]
    fn test_if_with_block_does_create_scope() {
        let mut analyzer = SemanticAnalyzer::new();

        // Program: if (true) { let x = 1; } x;
        // Block creates scope, so x is NOT visible outside
        let program = Program {
            statements: vec![
                Statement::If(veltrix::parser::ast::IfStatement {
                    condition: Expression::Boolean(true),
                    consequence: vec![
                        Statement::Block(vec![
                            Statement::Let(LetStatement {
                                name: "x".to_string(),
                                value: Expression::Integer(1),
                            }),
                        ]),
                    ],
                    alternative: None,
                }),
                Statement::Expression(Expression::Identifier("x".to_string())),
            ],
        };

        let result = analyzer.analyze_program(&program);
        assert!(result.is_err(), "If with block SHOULD isolate - x should NOT be visible");
        let err = result.unwrap_err();
        assert!(err.message.contains("Undeclared identifier"));
        assert!(err.message.contains("x"));
    }


    #[test]
    fn test_nested_if_inside_block() {
        let mut analyzer = SemanticAnalyzer::new();

        // Program: let x; if (x) { if (x) {} }
        let program = Program {
            statements: vec![
                Statement::Let(LetStatement {
                    name: "x".to_string(),
                    value: Expression::Boolean(true),
                }),
                Statement::If(veltrix::parser::ast::IfStatement {
                    condition: Expression::Identifier("x".to_string()),
                    consequence: vec![
                        Statement::If(veltrix::parser::ast::IfStatement {
                            condition: Expression::Identifier("x".to_string()),
                            consequence: vec![],
                            alternative: None,
                        }),
                    ],
                    alternative: None,
                }),
            ],
        };

        let result = analyzer.analyze_program(&program);
        assert!(result.is_ok(), "Nested if inside block should work");
    }


    #[test]
    fn test_while_undeclared_condition() {
        let mut analyzer = SemanticAnalyzer::new();

        // Program: while (x) {}
        let program = Program {
            statements: vec![
                Statement::While(veltrix::parser::ast::WhileStatement {
                    condition: Expression::Identifier("x".to_string()),
                    body: vec![],
                }),
            ],
        };

        let result = analyzer.analyze_program(&program);
        assert!(result.is_err());
        let err = result.unwrap_err();
        assert!(err.message.contains("Undeclared identifier"));
        assert!(err.message.contains("x"));
    }


    #[test]
    fn test_while_valid_outer_variable() {
        let mut analyzer = SemanticAnalyzer::new();

        // Program: let x; while (x) {}
        let program = Program {
            statements: vec![
                Statement::Let(LetStatement {
                    name: "x".to_string(),
                    value: Expression::Boolean(true),
                }),
                Statement::While(veltrix::parser::ast::WhileStatement {
                    condition: Expression::Identifier("x".to_string()),
                    body: vec![],
                }),
            ],
        };

        let result = analyzer.analyze_program(&program);
        assert!(result.is_ok(), "While with valid outer variable should succeed");
    }


    #[test]
    fn test_while_body_referencing_outer_variable() {
        let mut analyzer = SemanticAnalyzer::new();

        // Program: let x; while (true) { x; }
        let program = Program {
            statements: vec![
                Statement::Let(LetStatement {
                    name: "x".to_string(),
                    value: Expression::Integer(5),
                }),
                Statement::While(veltrix::parser::ast::WhileStatement {
                    condition: Expression::Boolean(true),
                    body: vec![
                        Statement::Expression(Expression::Identifier("x".to_string())),
                    ],
                }),
            ],
        };

        let result = analyzer.analyze_program(&program);
        assert!(result.is_ok(), "While body referencing outer variable should succeed");
    }


    #[test]
    fn test_while_without_block_does_not_create_scope() {
        let mut analyzer = SemanticAnalyzer::new();

        // Program: while (true) let x = 1; x;
        // With correct semantics: while does NOT create scope, so x IS visible
        let program = Program {
            statements: vec![
                Statement::While(veltrix::parser::ast::WhileStatement {
                    condition: Expression::Boolean(true),
                    body: vec![
                        Statement::Let(LetStatement {
                            name: "x".to_string(),
                            value: Expression::Integer(1),
                        }),
                    ],
                }),
                Statement::Expression(Expression::Identifier("x".to_string())),
            ],
        };

        let result = analyzer.analyze_program(&program);
        assert!(result.is_ok(), "While without block should NOT create scope - x should be visible");
    }


    #[test]
    fn test_while_with_block_does_create_scope() {
        let mut analyzer = SemanticAnalyzer::new();

        // Program: while (true) { let x = 1; } x;
        // Block creates scope, so x is NOT visible outside
        let program = Program {
            statements: vec![
                Statement::While(veltrix::parser::ast::WhileStatement {
                    condition: Expression::Boolean(true),
                    body: vec![
                        Statement::Block(vec![
                            Statement::Let(LetStatement {
                                name: "x".to_string(),
                                value: Expression::Integer(1),
                            }),
                        ]),
                    ],
                }),
                Statement::Expression(Expression::Identifier("x".to_string())),
            ],
        };

        let result = analyzer.analyze_program(&program);
        assert!(result.is_err(), "While with block SHOULD isolate - x should NOT be visible");
        let err = result.unwrap_err();
        assert!(err.message.contains("Undeclared identifier"));
        assert!(err.message.contains("x"));
    }


    #[test]
    fn test_for_loop_scope_isolation() {
        let mut analyzer = SemanticAnalyzer::new();

        // Program: for i in [] {}; i;
        let program = Program {
            statements: vec![
                Statement::For(veltrix::parser::ast::ForStatement {
                    item: "i".to_string(),
                    list: Expression::Array(vec![]),
                    body: vec![],
                }),
                Statement::Expression(Expression::Identifier("i".to_string())),
            ],
        };

        let result = analyzer.analyze_program(&program);
        assert!(result.is_err());
        let err = result.unwrap_err();
        assert!(err.message.contains("Undeclared identifier"));
        assert!(err.message.contains("i"));
    }


    #[test]
    fn test_for_loop_variable_visible_inside() {
        let mut analyzer = SemanticAnalyzer::new();

        // Program: for i in [] { i; }
        let program = Program {
            statements: vec![
                Statement::For(veltrix::parser::ast::ForStatement {
                    item: "i".to_string(),
                    list: Expression::Array(vec![]),
                    body: vec![
                        Statement::Expression(Expression::Identifier("i".to_string())),
                    ],
                }),
            ],
        };

        let result = analyzer.analyze_program(&program);
        assert!(result.is_ok(), "For loop variable should be visible inside body");
    }


    #[test]
    fn test_nested_for_loops_valid() {
        let mut analyzer = SemanticAnalyzer::new();

        // Program: for i in [] { for j in [] {} }
        let program = Program {
            statements: vec![
                Statement::For(veltrix::parser::ast::ForStatement {
                    item: "i".to_string(),
                    list: Expression::Array(vec![]),
                    body: vec![
                        Statement::For(veltrix::parser::ast::ForStatement {
                            item: "j".to_string(),
                            list: Expression::Array(vec![]),
                            body: vec![
                                Statement::Expression(Expression::Identifier("i".to_string())),
                                Statement::Expression(Expression::Identifier("j".to_string())),
                            ],
                        }),
                    ],
                }),
            ],
        };

        let result = analyzer.analyze_program(&program);
        assert!(result.is_ok(), "Nested for loops with distinct variables should work");
    }


    #[test]
    fn test_for_with_undeclared_list_variable() {
        let mut analyzer = SemanticAnalyzer::new();

        // Program: for i in arr {}
        let program = Program {
            statements: vec![
                Statement::For(veltrix::parser::ast::ForStatement {
                    item: "i".to_string(),
                    list: Expression::Identifier("arr".to_string()),
                    body: vec![],
                }),
            ],
        };

        let result = analyzer.analyze_program(&program);
        assert!(result.is_err());
        let err = result.unwrap_err();
        assert!(err.message.contains("Undeclared identifier"));
        assert!(err.message.contains("arr"));
    }


    #[test]
    fn test_if_else_without_blocks_no_scope_isolation() {
        let mut analyzer = SemanticAnalyzer::new();

        // Program: if (true) let x = 1; else let y = 2; x; y;
        // Without blocks: both x and y should be visible after if/else
        let program = Program {
            statements: vec![
                Statement::If(veltrix::parser::ast::IfStatement {
                    condition: Expression::Boolean(true),
                    consequence: vec![
                        Statement::Let(LetStatement {
                            name: "x".to_string(),
                            value: Expression::Integer(1),
                        }),
                    ],
                    alternative: Some(vec![
                        Statement::Let(LetStatement {
                            name: "y".to_string(),
                            value: Expression::Integer(2),
                        }),
                    ]),
                }),
                Statement::Expression(Expression::Identifier("x".to_string())),
                Statement::Expression(Expression::Identifier("y".to_string())),
            ],
        };

        let result = analyzer.analyze_program(&program);
        assert!(result.is_ok(), "Without blocks, both x and y should be visible after if/else");
    }


    #[test]
    fn test_if_else_with_blocks_scope_isolated() {
        let mut analyzer = SemanticAnalyzer::new();

        // Program: if (true) { let x = 1; } else { let y = 2; } x;
        // With blocks: x should NOT be visible outside
        let program = Program {
            statements: vec![
                Statement::If(veltrix::parser::ast::IfStatement {
                    condition: Expression::Boolean(true),
                    consequence: vec![
                        Statement::Block(vec![
                            Statement::Let(LetStatement {
                                name: "x".to_string(),
                                value: Expression::Integer(1),
                            }),
                        ]),
                    ],
                    alternative: Some(vec![
                        Statement::Block(vec![
                            Statement::Let(LetStatement {
                                name: "y".to_string(),
                                value: Expression::Integer(2),
                            }),
                        ]),
                    ]),
                }),
                Statement::Expression(Expression::Identifier("x".to_string())),
            ],
        };

        let result = analyzer.analyze_program(&program);
        assert!(result.is_err());
        let err = result.unwrap_err();
        assert!(err.message.contains("Undeclared identifier"));
        assert!(err.message.contains("x"));
    }


    #[test]
    fn test_function_table_new_empty() {
        let table = FunctionTable::new();
        assert!(table.is_empty());
        assert_eq!(table.len(), 0);
    }


    #[test]
    fn test_function_table_default_empty() {
        let table: FunctionTable = Default::default();
        assert!(table.is_empty());
        assert_eq!(table.len(), 0);
    }


    #[test]
    fn test_function_table_register_single() {
        let mut table = FunctionTable::new();

        let func = FunctionDeclaration {
            name: "add".to_string(),
            params: vec!["a".to_string(), "b".to_string()],
            body: vec![],
        };

        let result = table.register(func);
        assert!(result.is_ok());
        assert_eq!(table.len(), 1);
        assert!(table.contains("add"));
    }


    #[test]
    fn test_function_table_register_zero_params() {
        let mut table = FunctionTable::new();

        let func = FunctionDeclaration {
            name: "greet".to_string(),
            params: vec![],
            body: vec![],
        };

        let result = table.register(func);
        assert!(result.is_ok());
        assert_eq!(table.len(), 1);
        assert!(table.contains("greet"));

        let retrieved = table.lookup("greet").unwrap();
        assert!(retrieved.params.is_empty());
    }


    #[test]
    fn test_function_table_register_duplicate_error() {
        let mut table = FunctionTable::new();

        let func1 = FunctionDeclaration {
            name: "add".to_string(),
            params: vec!["a".to_string(), "b".to_string()],
            body: vec![],
        };

        let func2 = FunctionDeclaration {
            name: "add".to_string(),
            params: vec!["x".to_string(), "y".to_string()],
            body: vec![],
        };

        table.register(func1).expect("First registration should succeed");
        let result = table.register(func2);
        assert!(result.is_err());

        let err = result.unwrap_err();
        assert!(err.message.contains("add"));
        assert!(err.message.contains("already declared"));
        assert_eq!(table.len(), 1);
    }


    #[test]
    fn test_function_table_register_multiple() {
        let mut table = FunctionTable::new();

        let func1 = FunctionDeclaration {
            name: "add".to_string(),
            params: vec!["a".to_string(), "b".to_string()],
            body: vec![],
        };

        let func2 = FunctionDeclaration {
            name: "greet".to_string(),
            params: vec!["name".to_string()],
            body: vec![],
        };

        let func3 = FunctionDeclaration {
            name: "no_params".to_string(),
            params: vec![],
            body: vec![],
        };

        table.register(func1).unwrap();
        table.register(func2).unwrap();
        table.register(func3).unwrap();

        assert_eq!(table.len(), 3);
        assert!(table.contains("add"));
        assert!(table.contains("greet"));
        assert!(table.contains("no_params"));
    }


    #[test]
    fn test_function_table_lookup_existing() {
        let mut table = FunctionTable::new();

        let func = FunctionDeclaration {
            name: "calculate".to_string(),
            params: vec!["x".to_string()],
            body: vec![Statement::Return(veltrix::parser::ast::ReturnStatement { value: None })],
        };

        table.register(func.clone()).unwrap();

        let retrieved = table.lookup("calculate");
        assert!(retrieved.is_some());

        let arc_func = retrieved.unwrap();
        assert_eq!(arc_func.name, "calculate");
        assert_eq!(arc_func.params, vec!["x"]);
        assert_eq!(arc_func.body.len(), 1);
    }


    #[test]
    fn test_function_table_lookup_nonexistent() {
        let table = FunctionTable::new();
        let retrieved = table.lookup("nonexistent");
        assert!(retrieved.is_none());
    }


    #[test]
    fn test_function_table_contains() {
        let mut table = FunctionTable::new();

        let func = FunctionDeclaration {
            name: "test".to_string(),
            params: vec![],
            body: vec![],
        };

        assert!(!table.contains("test"));
        table.register(func).unwrap();
        assert!(table.contains("test"));
    }


    #[test]
    fn test_function_table_function_names() {
        let mut table = FunctionTable::new();

        table.register(FunctionDeclaration {
            name: "alpha".to_string(),
            params: vec![],
            body: vec![],
        }).unwrap();

        table.register(FunctionDeclaration {
            name: "beta".to_string(),
            params: vec![],
            body: vec![],
        }).unwrap();

        let owned = table.function_names();
        let names: Vec<&String> = owned.iter().collect();
        assert_eq!(names.len(), 2);
        assert!(names.contains(&&"alpha".to_string()));
        assert!(names.contains(&&"beta".to_string()));
    }


    #[test]
    fn test_function_table_arc_preserves_body() {
        let mut table = FunctionTable::new();

        let body = vec![
            Statement::Let(LetStatement {
                name: "result".to_string(),
                value: Expression::Integer(42),
            }),
            Statement::Return(veltrix::parser::ast::ReturnStatement {
                value: Some(Expression::Identifier("result".to_string())),
            }),
        ];

        let func = FunctionDeclaration {
            name: "compute".to_string(),
            params: vec!["input".to_string()],
            body,
        };

        table.register(func).unwrap();

        let retrieved = table.lookup("compute").unwrap();
        assert_eq!(retrieved.body.len(), 2);
    }


    #[test]
    fn test_analyze_single_function_declaration() {
        let mut analyzer = SemanticAnalyzer::new();

        let program = Program {
            statements: vec![
                Statement::FunctionDeclaration(FunctionDeclaration {
                    name: "add".to_string(),
                    params: vec!["a".to_string(), "b".to_string()],
                    body: vec![],
                }),
            ],
        };

        let result = analyzer.analyze_program(&program);
        assert!(result.is_ok());
        assert_eq!(analyzer.function_table().len(), 1);
        assert!(analyzer.function_table().contains("add"));
    }


    #[test]
    fn test_analyze_zero_parameter_function() {
        let mut analyzer = SemanticAnalyzer::new();

        let program = Program {
            statements: vec![
                Statement::FunctionDeclaration(FunctionDeclaration {
                    name: "greet".to_string(),
                    params: vec![],
                    body: vec![],
                }),
            ],
        };

        let result = analyzer.analyze_program(&program);
        assert!(result.is_ok());
        assert_eq!(analyzer.function_table().len(), 1);

        let func = analyzer.function_table().lookup("greet").unwrap();
        assert!(func.params.is_empty());
    }


    #[test]
    fn test_analyze_multiple_function_declarations() {
        let mut analyzer = SemanticAnalyzer::new();

        let program = Program {
            statements: vec![
                Statement::FunctionDeclaration(FunctionDeclaration {
                    name: "add".to_string(),
                    params: vec!["a".to_string(), "b".to_string()],
                    body: vec![],
                }),
                Statement::FunctionDeclaration(FunctionDeclaration {
                    name: "greet".to_string(),
                    params: vec!["name".to_string()],
                    body: vec![],
                }),
            ],
        };

        let result = analyzer.analyze_program(&program);
        assert!(result.is_ok());
        assert_eq!(analyzer.function_table().len(), 2);
        assert!(analyzer.function_table().contains("add"));
        assert!(analyzer.function_table().contains("greet"));
    }


    #[test]
    fn test_analyze_duplicate_function_error() {
        let mut analyzer = SemanticAnalyzer::new();

        let program = Program {
            statements: vec![
                Statement::FunctionDeclaration(FunctionDeclaration {
                    name: "add".to_string(),
                    params: vec!["a".to_string(), "b".to_string()],
                    body: vec![],
                }),
                Statement::FunctionDeclaration(FunctionDeclaration {
                    name: "add".to_string(),
                    params: vec!["x".to_string(), "y".to_string()],
                    body: vec![],
                }),
            ],
        };

        let result = analyzer.analyze_program(&program);
        assert!(result.is_err());

        let err = result.unwrap_err();
        assert!(err.message.contains("add"));
        assert!(err.message.contains("already declared"));
    }


    #[test]
    fn test_analyze_empty_body_function() {
        let mut analyzer = SemanticAnalyzer::new();

        let program = Program {
            statements: vec![
                Statement::FunctionDeclaration(FunctionDeclaration {
                    name: "empty".to_string(),
                    params: vec![],
                    body: vec![],
                }),
            ],
        };

        let result = analyzer.analyze_program(&program);
        assert!(result.is_ok());
        assert_eq!(analyzer.function_table().len(), 1);

        let func = analyzer.function_table().lookup("empty").unwrap();
        assert!(func.body.is_empty());
    }


    #[test]
    fn test_analyze_function_with_body_content() {
        let mut analyzer = SemanticAnalyzer::new();

        let program = Program {
            statements: vec![
                Statement::FunctionDeclaration(FunctionDeclaration {
                    name: "compute".to_string(),
                    params: vec!["x".to_string()],
                    body: vec![
                        Statement::Return(veltrix::parser::ast::ReturnStatement {
                            value: Some(Expression::Integer(42)),
                        }),
                    ],
                }),
            ],
        };

        let result = analyzer.analyze_program(&program);
        assert!(result.is_ok());
        assert_eq!(analyzer.function_table().len(), 1);

        let func = analyzer.function_table().lookup("compute").unwrap();
        assert_eq!(func.body.len(), 1);
    }


    #[test]
    fn test_analyze_mixed_program_functions_and_variables() {
        let mut analyzer = SemanticAnalyzer::new();

        let program = Program {
            statements: vec![
                Statement::Let(LetStatement {
                    name: "global_var".to_string(),
                    value: Expression::Integer(10),
                }),
                Statement::FunctionDeclaration(FunctionDeclaration {
                    name: "helper".to_string(),
                    params: vec![],
                    body: vec![],
                }),
                Statement::FunctionDeclaration(FunctionDeclaration {
                    name: "main".to_string(),
                    params: vec![],
                    body: vec![],
                }),
            ],
        };

        let result = analyzer.analyze_program(&program);
        assert!(result.is_ok());
        assert_eq!(analyzer.function_table().len(), 2);
        assert!(analyzer.function_table().contains("helper"));
        assert!(analyzer.function_table().contains("main"));
    }


    #[test]
    fn test_native_function_call_correct_args_ok() {
        let mut builder = veltrix::native::NativeFunctionRegistryBuilder::new();
        builder.register("foo", 2).expect("register should succeed");
        let registry = std::sync::Arc::new(builder.build());
        let mut analyzer = SemanticAnalyzer::with_native_registry(registry);

        let program = Program {
            statements: vec![
                Statement::Expression(Expression::FunctionCall(FunctionCallExpression {
                    name: "foo".to_string(),
                    arguments: vec![
                        Expression::Integer(1),
                        Expression::Integer(2),
                    ],
                })),
            ],
        };

        let result = analyzer.analyze_program(&program);
        assert!(result.is_ok(), "Native function call with correct args should succeed");
    }


    #[test]
    fn test_native_function_call_wrong_arg_count_error() {
        let mut builder = veltrix::native::NativeFunctionRegistryBuilder::new();
        builder.register("bar", 1).expect("register should succeed");
        let registry = std::sync::Arc::new(builder.build());
        let mut analyzer = SemanticAnalyzer::with_native_registry(registry);

        let program = Program {
            statements: vec![
                Statement::Expression(Expression::FunctionCall(FunctionCallExpression {
                    name: "bar".to_string(),
                    arguments: vec![
                        Expression::Integer(1),
                        Expression::Integer(2),
                    ],
                })),
            ],
        };

        let result = analyzer.analyze_program(&program);
        assert!(result.is_err());
        let err = result.unwrap_err();
        assert!(err.message.contains("bar"));
        assert!(err.message.contains("expects 1"));
        assert!(err.message.contains("got 2"));
    }


    #[test]
    fn test_unknown_function_error() {
        let registry = std::sync::Arc::new(veltrix::native::NativeFunctionRegistry::empty());
        let mut analyzer = SemanticAnalyzer::with_native_registry(registry);

        let program = Program {
            statements: vec![
                Statement::Expression(Expression::FunctionCall(FunctionCallExpression {
                    name: "nonexistent".to_string(),
                    arguments: vec![],
                })),
            ],
        };

        let result = analyzer.analyze_program(&program);
        assert!(result.is_err());
        let err = result.unwrap_err();
        assert!(err.message.contains("Unknown function"));
        assert!(err.message.contains("nonexistent"));
    }


    #[test]
    fn test_user_function_call_with_empty_native_registry_ok() {
        let registry = std::sync::Arc::new(veltrix::native::NativeFunctionRegistry::empty());
        let mut analyzer = SemanticAnalyzer::with_native_registry(registry);

        let program = Program {
            statements: vec![
                Statement::FunctionDeclaration(FunctionDeclaration {
                    name: "add".to_string(),
                    params: vec!["a".to_string(), "b".to_string()],
                    body: vec![],
                }),
                Statement::Expression(Expression::FunctionCall(FunctionCallExpression {
                    name: "add".to_string(),
                    arguments: vec![
                        Expression::Integer(3),
                        Expression::Integer(4),
                    ],
                })),
            ],
        };

        let result = analyzer.analyze_program(&program);
        assert!(result.is_ok(), "User function call with empty native registry should succeed");
    }


    #[test]
    fn test_user_function_wrong_arg_count_error() {
        let registry = std::sync::Arc::new(veltrix::native::NativeFunctionRegistry::empty());
        let mut analyzer = SemanticAnalyzer::with_native_registry(registry);

        let program = Program {
            statements: vec![
                Statement::FunctionDeclaration(FunctionDeclaration {
                    name: "add".to_string(),
                    params: vec!["a".to_string(), "b".to_string()],
                    body: vec![],
                }),
                Statement::Expression(Expression::FunctionCall(FunctionCallExpression {
                    name: "add".to_string(),
                    arguments: vec![Expression::Integer(3)],
                })),
            ],
        };

        let result = analyzer.analyze_program(&program);
        assert!(result.is_err());
        let err = result.unwrap_err();
        assert!(err.message.contains("add"));
        assert!(err.message.contains("expects 2"));
        assert!(err.message.contains("got 1"));
    }


    #[test]
    fn test_analyzer_without_native_registry_unknown_function_error() {
        let mut analyzer = SemanticAnalyzer::new();

        let program = Program {
            statements: vec![
                Statement::Expression(Expression::FunctionCall(FunctionCallExpression {
                    name: "unknown".to_string(),
                    arguments: vec![],
                })),
            ],
        };

        let result = analyzer.analyze_program(&program);
        assert!(result.is_err());
        let err = result.unwrap_err();
        assert!(err.message.contains("Unknown function"));
    }


    #[test]
    fn test_native_function_zero_args_ok() {
        let mut builder = veltrix::native::NativeFunctionRegistryBuilder::new();
        builder.register("noargs", 0).expect("register should succeed");
        let registry = std::sync::Arc::new(builder.build());
        let mut analyzer = SemanticAnalyzer::with_native_registry(registry);

        let program = Program {
            statements: vec![
                Statement::Expression(Expression::FunctionCall(FunctionCallExpression {
                    name: "noargs".to_string(),
                    arguments: vec![],
                })),
            ],
        };

        let result = analyzer.analyze_program(&program);
        assert!(result.is_ok());
    }


    #[test]
    fn test_deterministic_native_validation() {
        let mut builder = veltrix::native::NativeFunctionRegistryBuilder::new();
        builder.register("det", 1).expect("register should succeed");
        let registry = std::sync::Arc::new(builder.build());
        let mut analyzer = SemanticAnalyzer::with_native_registry(registry.clone());

        let program = Program {
            statements: vec![
                Statement::Expression(Expression::FunctionCall(FunctionCallExpression {
                    name: "det".to_string(),
                    arguments: vec![Expression::Integer(42)],
                })),
            ],
        };

        let r1 = analyzer.analyze_program(&program);
        let mut analyzer2 = SemanticAnalyzer::with_native_registry(registry);
        let r2 = analyzer2.analyze_program(&program);
        assert_eq!(r1.is_ok(), r2.is_ok());
        assert!(r1.is_ok());
    }


    #[test]
    fn test_function_table_clone_preserves_data() {
        let mut table = FunctionTable::new();

        table.register(FunctionDeclaration {
            name: "original".to_string(),
            params: vec!["p".to_string()],
            body: vec![],
        }).unwrap();

        let cloned = table.clone();

        assert_eq!(cloned.len(), 1);
        assert!(cloned.contains("original"));

        // Modifying original should not affect clone
        table.register(FunctionDeclaration {
            name: "new".to_string(),
            params: vec![],
            body: vec![],
        }).unwrap();

        assert_eq!(table.len(), 2);
        assert_eq!(cloned.len(), 1);
        assert!(!cloned.contains("new"));
    }


    #[test]
    fn test_empty_block() {
        let mut analyzer = SemanticAnalyzer::new();

        // Program: { }
        let program = Program {
            statements: vec![
                Statement::Block(vec![]),
            ],
        };

        let result = analyzer.analyze_program(&program);
        assert!(result.is_ok(), "Empty blocks should be valid");
    }
