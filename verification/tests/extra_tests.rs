use veltrix::cli::{cli_error_from_pipeline, parse_args_from, CliError};
use veltrix::file_loader::{FileLoader, VeltrixError, MAX_FILE_SIZE};
use veltrix::interpreter::{FunctionValue, Interpreter, RuntimeContext, RuntimeError, Value};
use veltrix::lexer::error::LexError;
use veltrix::native::{NativeFunctionError, NativeFunctionRegistryBuilder, NativeFunctionValidationError};
use veltrix::parser::ast::{BinaryExpression, Expression, UnaryExpression};
use veltrix::parser::error::ParserError;
use veltrix::pipeline::{run_vlx_content, PipelineError, RunFlags};
use veltrix::repl::{read_input_line, EvalResult, InputStatus, ReadResult, Repl};
use veltrix::semantic::SemanticError;
use veltrix::validation::{has_suspicious_content, validate_loaded, validate_path, VeltrixValidationError};

fn bin(l: Expression, op: &str, r: Expression) -> Expression {
    Expression::Binary(BinaryExpression { left: Box::new(l), operator: op.to_string(), right: Box::new(r) })
}

fn eval(e: Expression) -> Result<Value, RuntimeError> {
    let mut interp = Interpreter::new();
    interp.evaluate_expression(&e)
}

#[test]
fn extra_display_formats() {
    let arr = Value::Array(vec![Value::Integer(-12), Value::String("a".to_string()), Value::Boolean(true), Value::Nil]);
    assert_eq!(arr.to_display_string(), "[-12, a, true, nil]");
    let f = Value::Function(FunctionValue::new(vec!["a".to_string(), "b".to_string()], vec![]));
    assert_eq!(f.to_display_string(), "<function(a, b)>");
    assert_eq!(Value::Array(vec![]).to_display_string(), "[]");
    assert_eq!(Value::Integer(i64::MIN).to_display_string(), "-9223372036854775808");
}

#[test]
fn extra_arithmetic_results() {
    assert_eq!(eval(bin(Expression::Integer(7), "/", Expression::Integer(-2))), Ok(Value::Integer(-3)));
    assert_eq!(eval(bin(Expression::Integer(-7), "%", Expression::Integer(3))), Ok(Value::Integer(-1)));
    assert_eq!(eval(bin(Expression::Integer(2), "**", Expression::Integer(10))), Ok(Value::Integer(1024)));
    assert_eq!(eval(bin(Expression::Integer(2), "**", Expression::Integer(-1))), Ok(Value::Integer(0)));
    assert_eq!(
        eval(bin(Expression::String("ab".to_string()), "+", Expression::String("cd".to_string()))),
        Ok(Value::String("abcd".to_string()))
    );
    assert_eq!(
        eval(bin(Expression::String("abc".to_string()), "<", Expression::String("abd".to_string()))),
        Ok(Value::Boolean(true))
    );
    assert_eq!(
        eval(bin(Expression::String("b".to_string()), "<=", Expression::String("ab".to_string()))),
        Ok(Value::Boolean(false))
    );
}

#[test]
fn extra_overflow_is_an_error() {
    let big = eval(bin(Expression::Integer(i64::MAX), "+", Expression::Integer(1))).unwrap_err();
    assert_eq!(big.message, "That number is too big - the calculation overflowed");
    let div = eval(bin(Expression::Integer(i64::MIN), "/", Expression::Integer(-1))).unwrap_err();
    assert!(div.message.contains("too big"));
    let pow = eval(bin(Expression::Integer(2), "**", Expression::Integer(63))).unwrap_err();
    assert!(pow.message.contains("overflowed"));
    let neg = eval(Expression::Unary(UnaryExpression {
        operator: "-".to_string(),
        right: Box::new(Expression::Integer(i64::MIN)),
    }))
    .unwrap_err();
    assert!(neg.message.contains("overflowed"));
}

#[test]
fn extra_runtime_error_variants() {
    let v = Value::Integer(1);
    let cases: Vec<(RuntimeError, &str)> = vec![
        (RuntimeError::undefined_function("g", None), "I can't find a function called 'g' - check the name and try again"),
        (RuntimeError::not_callable(&v, None), "Attempted to call non-function value - got a integer instead of a function"),
        (RuntimeError::arity_mismatch("h", 1, 3, None), "Function 'h' expects 1 argument, but you gave 3 - please check your function call"),
        (RuntimeError::arity_mismatch("h", 2, 0, None), "Function 'h' expects 2 arguments, but you gave 0 - please check your function call"),
        (RuntimeError::invalid_unary(&Value::Nil, "-", None), "Cannot apply '-' to a nil value - that operation doesn't make sense here"),
        (RuntimeError::type_mismatch_operation(&v, &Value::Nil, "%", None), "Cannot apply modulo to 'integer' and 'nil' together - these types don't work with '%'"),
        (RuntimeError::invalid_comparison(&v, &Value::Boolean(true), "<", None), "Cannot compare 'integer' and 'boolean' with '<' - these types can't be compared this way"),
        (RuntimeError::unknown_operator("^", false, None), "Unknown binary operator '^' - I don't know how to handle this"),
        (RuntimeError::unknown_operator("~", true, None), "Unknown unary operator '~' - I don't know how to handle this"),
        (RuntimeError::scope_exit_error(None), "Cannot exit the global scope - there's nowhere else to go!"),
        (RuntimeError::execution_limit(), "Execution limit reached - the program ran too long or recursed too deeply"),
    ];
    for (err, text) in cases {
        assert_eq!(err.message, text);
    }
    let full = RuntimeError::new("boom")
        .with_context(RuntimeContext::new("working").with_function("f").with_scope_depth(2))
        .at(3, 0);
    assert_eq!(full.to_display_string(), "Runtime error: boom (while working in function 'f' (scope depth: 2)) at line 3");
}

#[test]
fn extra_unknown_operator_from_ast() {
    let err = eval(bin(Expression::Integer(1), "^", Expression::Integer(2))).unwrap_err();
    assert!(err.message.contains("Unknown binary operator '^'"));
    let ctx = err.context.unwrap();
    assert_eq!(ctx.operation, "evaluating binary expression with '^'");
}

#[test]
fn extra_pipeline_error_variants() {
    let lex = PipelineError::LexerError(LexError { message: "m".to_string(), line: 2, column: 3 });
    assert_eq!(lex.to_display_string(), "Lexer error at line 2, column 3: m");
    let parse = PipelineError::ParserError(ParserError { message: "p".to_string(), line: 1, column: 1 });
    assert_eq!(parse.to_display_string(), "Parser error at line 1, column 1: p");
    let sem = PipelineError::SemanticError(SemanticError { message: "s".to_string(), line: 4, column: 5 });
    assert_eq!(sem.to_display_string(), "Semantic error at line 4, column 5: s");
    let rt = PipelineError::InterpreterError(RuntimeError::new("r"));
    assert_eq!(rt.to_display_string(), "Runtime error: r");
    let io = PipelineError::ReplIoError("closed".to_string());
    assert_eq!(io.to_display_string(), "REPL I/O error: closed");
    assert_eq!(PipelineError::EmptyContent.to_display_string(), "Input is empty");
}

#[test]
fn extra_cli_error_variants() {
    assert!(matches!(cli_error_from_pipeline(PipelineError::EmptyContent), CliError::ValidationError(VeltrixValidationError::EmptyFile)));
    let e = cli_error_from_pipeline(PipelineError::ReplIoError("x".to_string()));
    assert_eq!(e.to_display_string(), "REPL I/O error: x");
    let s = CliError::SemanticError(SemanticError { message: "bad".to_string(), line: 1, column: 1 });
    assert_eq!(s.to_display_string(), "Semantic error: bad");
    let p = CliError::ParseError(ParserError { message: "q".to_string(), line: 2, column: 7 });
    assert_eq!(p.to_display_string(), "Parse error at line 2, column 7: q");
    let v = CliError::ValidationError(VeltrixValidationError::SuspiciousContent);
    assert_eq!(v.to_display_string(), "File contains suspicious or non-printable content");
}

#[test]
fn extra_parse_args_messages() {
    let e = parse_args_from(&["veltrix"]).unwrap_err();
    assert!(e.to_display_string().starts_with("Missing command.\nUsage: veltrix run"));
    let e = parse_args_from(&["veltrix", "go", "a.vlx"]).unwrap_err();
    assert!(e.to_display_string().starts_with("Unknown command 'go'. Expected 'run'."));
    let e = parse_args_from(&["veltrix", "run", "a.vlx", "-x"]).unwrap_err();
    assert!(e.to_display_string().starts_with("Unknown flag '-x'."));
    let e = parse_args_from(&["veltrix", "run", "a.vlx", "b.vlx"]).unwrap_err();
    assert!(e.to_display_string().starts_with("Multiple file paths given."));
    let e = parse_args_from(&["veltrix", "run", "--repl"]).unwrap_err();
    assert!(e.to_display_string().starts_with("Missing file path."));
    let ok = parse_args_from(&["veltrix", "run", "PROGRAM.VLX"]).unwrap();
    assert_eq!(ok.file_path, "PROGRAM.VLX");
    let e = parse_args_from(&["veltrix", "run", "program.vlxx"]).unwrap_err();
    assert_eq!(e.to_display_string(), "Invalid file extension: expected .vlx");
}

#[test]
fn extra_validation_and_loader() {
    assert_eq!(validate_path("   "), Err(VeltrixValidationError::MissingPath));
    assert_eq!(validate_path("notes.txt"), Err(VeltrixValidationError::InvalidExtension));
    assert_eq!(validate_path("noextension"), Err(VeltrixValidationError::InvalidExtension));
    assert_eq!(validate_path("dir/Main.VlX"), Ok(()));
    assert_eq!(FileLoader::check_extension("a.vlx"), Ok(()));
    assert_eq!(FileLoader::check_extension(".vlx"), Err(VeltrixError::InvalidExtension));
    assert_eq!(FileLoader::check_size(0), Err(VeltrixError::EmptyFile));
    assert_eq!(FileLoader::check_size(MAX_FILE_SIZE), Ok(()));
    assert_eq!(FileLoader::check_size(MAX_FILE_SIZE + 1), Err(VeltrixError::FileTooLarge));
    assert_eq!(FileLoader::check_text(" \n\t".to_string()), Err(VeltrixError::EmptyFile));
    assert_eq!(FileLoader::check_text("write 1".to_string()), Ok("write 1".to_string()));
    assert!(has_suspicious_content("a\u{0}b"));
    assert!(has_suspicious_content("\u{7f}"));
    assert!(has_suspicious_content("\u{85}"));
    assert!(!has_suspicious_content("tab\tand\r\nnewline"));
    assert_eq!(validate_loaded(Err(VeltrixError::InvalidUTF8)), Err(VeltrixValidationError::InvalidUTF8));
    assert_eq!(validate_loaded(Ok("x\u{1}".to_string())), Err(VeltrixValidationError::SuspiciousContent));
    assert_eq!(validate_loaded(Ok("write 1".to_string())), Ok("write 1".to_string()));
    assert_eq!(VeltrixError::FileTooLarge.to_display_string(), "File exceeds maximum allowed size");
    assert_eq!(VeltrixValidationError::MissingPath.to_display_string(), "File path is missing or empty");
}

#[test]
fn extra_native_error_texts() {
    let e = NativeFunctionError::WrongArgumentCount { name: "f".to_string(), expected: 2, actual: 1 };
    assert_eq!(e.to_display_string(), "Function 'f' expects 2 argument(s), got 1");
    let e = NativeFunctionError::ArityTooLarge { name: "g".to_string(), arity: 300, max: 256 };
    assert_eq!(e.to_display_string(), "Native function 'g' has arity 300 which exceeds maximum 256");
    let v = NativeFunctionValidationError::FunctionNotFound { name: "h".to_string(), line: 1, column: 2 };
    assert_eq!(v.to_display_string(), "Unknown function 'h'");
}

#[test]
fn extra_semantic_with_registry() {
    let mut builder = NativeFunctionRegistryBuilder::new();
    builder.register("print", 1).unwrap();
    let reg = std::sync::Arc::new(builder.build());
    let mut analyzer = veltrix::semantic::SemanticAnalyzer::with_native_registry(reg);
    let call = Expression::FunctionCall(veltrix::parser::ast::FunctionCallExpression {
        name: "print".to_string(),
        arguments: vec![Expression::Integer(1), Expression::Integer(2)],
    });
    let err = analyzer.analyze_expression(&call, 3, 4).unwrap_err();
    assert_eq!(err.message, "Function 'print' expects 1 argument(s), got 2");
    assert_eq!((err.line, err.column), (3, 4));
    let arr = Expression::Array(vec![Expression::Integer(1), Expression::Identifier("nope".to_string())]);
    let err = analyzer.analyze_expression(&arr, 1, 10).unwrap_err();
    assert_eq!(err.message, "Undeclared identifier 'nope'");
    assert_eq!(err.column, 11);
}

#[test]
fn extra_repl_lines() {
    let mut repl = Repl::new();
    assert_eq!(repl.read_line_result("   exit  \n"), ReadResult::Exit);
    assert_eq!(repl.read_line_result("  \n"), ReadResult::Empty);
    assert_eq!(repl.read_line_result("let a = 1\n"), ReadResult::Complete("let a = 1".to_string()));
    let cont = repl.read_line_result("if true:\n");
    assert_eq!(cont, ReadResult::Continue("if true:".to_string()));
    let reply = repl.step(cont);
    assert!(reply.stdout.is_empty() && !reply.exit);
    assert_eq!(repl.indent_level, 1);
    assert_eq!(repl.prompt(), "...    ");
    let done = repl.read_line_result("    write 5\n");
    assert_eq!(done, ReadResult::Complete("if true:\n    write 5".to_string()));
    let reply = repl.step(done);
    assert_eq!(reply.stdout, vec!["5".to_string()]);
    assert_eq!(repl.prompt(), "veltrix> ");
    let reply = repl.step(ReadResult::Complete("1 + 2".to_string()));
    assert_eq!(reply.stdout, vec!["3".to_string()]);
    let reply = repl.step(ReadResult::Complete("function sq(n):\n    return n * n".to_string()));
    assert_eq!(reply.stdout, vec!["Defined function 'sq'".to_string()]);
    let reply = repl.step(ReadResult::Complete("sq(true)".to_string()));
    assert!(reply.stderr[0].starts_with("Runtime error: Cannot multiply"));
    let reply = repl.step(ReadResult::Exit);
    assert!(reply.exit);
    assert_eq!(reply.stdout, vec!["Goodbye!".to_string()]);
    assert!(matches!(read_input_line("@"), ReadResult::ParseError(_)));
    assert_eq!(repl.is_complete_input("let x = ("), InputStatus::Incomplete);
    assert!(matches!(veltrix::repl::evaluate_line("\"x\" + 1"), EvalResult::Error(_)));
}

#[test]
fn extra_write_collects_output() {
    let r = run_vlx_content("let x = [1, 2]\nwrite x\nx", RunFlags::default()).unwrap();
    assert_eq!(r.last_value, Value::Array(vec![Value::Integer(1), Value::Integer(2)]));
    let mut interp = Interpreter::new();
    let src = "write \"a\"\nwrite 1 < 2\n";
    let mut lexer = veltrix::lexer::Lexer::new(src);
    let program = veltrix::parser::Parser::new(lexer.tokenize().unwrap()).parse_program().unwrap();
    interp.execute_program(&program.statements).unwrap();
    assert_eq!(interp.take_output(), vec!["a".to_string(), "true".to_string()]);
    assert!(interp.take_output().is_empty());
}

#[test]
fn extra_lexer_debug_text_in_messages() {
    let mut lexer = veltrix::lexer::Lexer::new("if true:\n\"b\"");
    let tokens = lexer.tokenize().unwrap();
    let err = veltrix::parser::Parser::new(tokens).parse_program().unwrap_err();
    assert_eq!(err.message, "Expected indented block, found String(\"b\")");
}

#[test]
fn plain_file_names_by_extension() {
    assert_eq!(validate_path("main.vlx"), Ok(()));
    assert_eq!(validate_path("archive.tar.VLX"), Ok(()));
    assert_eq!(validate_path("main.vlx.txt"), Err(VeltrixValidationError::InvalidExtension));
    assert_eq!(validate_path("main."), Err(VeltrixValidationError::InvalidExtension));
    assert_eq!(FileLoader::check_extension(".hidden.vlx"), Ok(()));
    assert_eq!(FileLoader::check_extension("vlx"), Err(VeltrixError::InvalidExtension));
}

#[test]
fn white_space_matches_std_for_every_char() {
    for code in 0u32..=0x10FFFF {
        if let Some(c) = char::from_u32(code) {
            let blank = validate_path(&c.to_string()) == Err(VeltrixValidationError::MissingPath);
            assert_eq!(blank, c.is_whitespace(), "character U+{:04X}", code);
        }
    }
}
