use veltrix::cli::{parse_args_from, CliArgs, CliError};
use veltrix::validation::VeltrixValidationError;


    #[test]
    fn test_parse_args_valid_file_no_flags() {
        let result = parse_args_from(&["veltrix", "run", "example.vlx"]);
        assert!(result.is_ok());
        let args = result.unwrap();
        assert_eq!(args.file_path, "example.vlx");
        assert!(!args.repl);
        assert!(!args.debug);
        assert!(!args.print_ast);
    }


    #[test]
    fn test_parse_args_valid_file_with_print_ast() {
        let result = parse_args_from(&["veltrix", "run", "example.vlx", "--print-ast"]);
        assert!(result.is_ok());
        let args = result.unwrap();
        assert_eq!(args.file_path, "example.vlx");
        assert!(args.print_ast);
    }


    #[test]
    fn test_parse_args_valid_file_with_debug() {
        let result = parse_args_from(&["veltrix", "run", "example.vlx", "--debug"]);
        assert!(result.is_ok());
        let args = result.unwrap();
        assert_eq!(args.file_path, "example.vlx");
        assert!(args.debug);
    }


    #[test]
    fn test_parse_args_valid_file_with_repl() {
        let result = parse_args_from(&["veltrix", "run", "example.vlx", "--repl"]);
        assert!(result.is_ok());
        let args = result.unwrap();
        assert_eq!(args.file_path, "example.vlx");
        assert!(args.repl);
    }


    #[test]
    fn test_parse_args_combined_flags() {
        let result = parse_args_from(&["veltrix", "run", "a.vlx", "--debug", "--print-ast", "--repl"]);
        assert!(result.is_ok());
        let args = result.unwrap();
        assert_eq!(args.file_path, "a.vlx");
        assert!(args.debug);
        assert!(args.print_ast);
        assert!(args.repl);
    }


    #[test]
    fn test_parse_args_missing_file_path() {
        let result = parse_args_from(&["veltrix", "run"]);
        assert!(result.is_err());
    }


    #[test]
    fn test_parse_args_invalid_flag() {
        let result = parse_args_from(&["veltrix", "run", "a.vlx", "--unknown"]);
        assert!(result.is_err());
        let err = result.unwrap_err();
        assert!(matches!(err, CliError::InvalidArgs(_)));
    }


    #[test]
    fn test_parse_args_invalid_extension() {
        let result = parse_args_from(&["veltrix", "run", "script.txt"]);
        assert!(result.is_err());
        let err = result.unwrap_err();
        assert!(matches!(err, CliError::InvalidArgs(_)));
    }


    #[test]
    fn test_parse_args_invalid_command() {
        let result = parse_args_from(&["veltrix", "build", "a.vlx"]);
        assert!(result.is_err());
    }


    #[test]
    fn test_parse_args_multiple_files() {
        let result = parse_args_from(&["veltrix", "run", "a.vlx", "b.vlx"]);
        assert!(result.is_err());
    }


    #[test]
    fn test_flags_deterministic() {
        // Flags in different order should yield same result
        let r1 = parse_args_from(&["veltrix", "run", "a.vlx", "--debug", "--repl"]);
        let r2 = parse_args_from(&["veltrix", "run", "a.vlx", "--repl", "--debug"]);
        assert!(r1.is_ok());
        assert!(r2.is_ok());
        let a1 = r1.unwrap();
        let a2 = r2.unwrap();
        assert_eq!(a1.file_path, a2.file_path);
        assert_eq!(a1.debug, a2.debug);
        assert_eq!(a1.repl, a2.repl);
    }
