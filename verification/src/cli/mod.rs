//! The command line: `veltrix run <file.vlx> [--repl] [--debug] [--print-ast]`.
pub mod laws;

use vstd::prelude::*;
use vstd::string::StringExecFns;
use crate::text::{
    concat2, concat3, usize_to_string, to_lowercase, lowercase, str_ends_with, ends_with_seq,
    str_starts_with, starts_with_seq, all_ws,
};
use crate::validation::{VeltrixValidationError, validation_error_text};
use crate::interpreter::error::{RuntimeError, SError, err_text};
use crate::lexer::error::{LexError, LexErrorView};
use crate::parser::error::{ParserError, ParserErrorView};
use crate::semantic::{SemanticError, SSemanticError};
use crate::pipeline::{
    PipelineError, PipelineRun, RunFlags, run_pipeline, at_text, pipe_res, s_pipeline,
    fresh_state,
};
use crate::interpreter::{STEP_LIMIT, lines_v};
use crate::interpreter::value::SValue;
use crate::interpreter::spec::{IState, s_program};
use crate::parser::ast::{SStmt, stmts_v};
use crate::parser::source::{front_end, SSourceError};
use crate::lexer::tokens_view;
use crate::lexer::token::TokenView;
use crate::lexer::spec::lex;

verus! {

/// The parsed command line.
#[derive(Debug, Clone, PartialEq, Eq)]
pub struct CliArgs {
    /// The `.vlx` file to run.
    pub file_path: String,
    /// Enter the REPL after running the file.
    pub repl: bool,
    /// Print the tokens and the syntax tree.
    pub debug: bool,
    /// Print the syntax tree only.
    pub print_ast: bool,
}

/// Why the command failed.
#[derive(Debug)]
pub enum CliError {
    InvalidArgs(String),
    ValidationError(VeltrixValidationError),
    LexError(LexError),
    ParseError(ParserError),
    SemanticError(SemanticError),
    RuntimeError(RuntimeError),
}

/// The usage text.
pub open spec fn usage_text() -> Seq<char> {
    "Usage: veltrix run <file.vlx> [--repl] [--debug] [--print-ast]\n\nOptions:\n  --repl       Enter REPL after running the file\n  --debug      Print debug info (lexer tokens and AST)\n  --print-ast  Skip execution, print AST only\n\nExample:\n  veltrix run example.vlx\n  veltrix run example.vlx --debug\n  veltrix run example.vlx --print-ast\n  veltrix run example.vlx --repl\n"@
}

/// The usage text.
pub fn usage() -> (r: &'static str)
    ensures
        r@ == usage_text(),
{
    "Usage: veltrix run <file.vlx> [--repl] [--debug] [--print-ast]\n\nOptions:\n  --repl       Enter REPL after running the file\n  --debug      Print debug info (lexer tokens and AST)\n  --print-ast  Skip execution, print AST only\n\nExample:\n  veltrix run example.vlx\n  veltrix run example.vlx --debug\n  veltrix run example.vlx --print-ast\n  veltrix run example.vlx --repl\n"
}

/// Mathematical view of a parsed command line.
pub struct SArgs {
    pub file_path: Seq<char>,
    pub repl: bool,
    pub debug: bool,
    pub print_ast: bool,
}

pub open spec fn args_v(a: CliArgs) -> SArgs {
    SArgs { file_path: a.file_path@, repl: a.repl, debug: a.debug, print_ast: a.print_ast }
}

/// The arguments from position `i` on: flags set switches, one other
/// argument is the path, and the path must end in `.vlx` in any case.
pub open spec fn s_scan(args: Seq<Seq<char>>, i: nat, path: Option<Seq<char>>, repl: bool, debug: bool, print_ast: bool) -> Result<
    SArgs,
    Seq<char>,
>
    decreases args.len() - i,
{
    if i >= args.len() {
        match path {
            None => Err("Missing file path.\n"@ + usage_text()),
            Some(p) => if !ends_with_seq(lowercase(p), ".vlx"@) {
                Err("Invalid file extension: expected .vlx"@)
            } else {
                Ok(SArgs { file_path: p, repl, debug, print_ast })
            },
        }
    } else {
        let a = args[i as int];
        if a == "--repl"@ {
            s_scan(args, i + 1, path, true, debug, print_ast)
        } else if a == "--debug"@ {
            s_scan(args, i + 1, path, repl, true, print_ast)
        } else if a == "--print-ast"@ {
            s_scan(args, i + 1, path, repl, debug, true)
        } else if starts_with_seq(a, "-"@) {
            Err("Unknown flag '"@ + a + "'.\n"@ + usage_text())
        } else if path is Some {
            Err("Multiple file paths given. Expected exactly one.\n"@ + usage_text())
        } else {
            s_scan(args, i + 1, Some(a), repl, debug, print_ast)
        }
    }
}

/// The meaning of a command line (the program name first), or the message
/// of why it is invalid.
pub open spec fn s_parse_args(args: Seq<Seq<char>>) -> Result<SArgs, Seq<char>> {
    if args.len() < 2 {
        Err("Missing command.\n"@ + usage_text())
    } else if args[1] != "run"@ {
        Err("Unknown command '"@ + args[1] + "'. Expected 'run'.\n"@ + usage_text())
    } else if args.len() < 3 {
        Err("Missing file path.\n"@ + usage_text())
    } else {
        s_scan(args, 2, None, false, false, false)
    }
}

pub open spec fn cli_res(r: Result<CliArgs, CliError>) -> Result<SArgs, Seq<char>> {
    match r {
        Ok(a) => Ok(args_v(a)),
        Err(CliError::InvalidArgs(m)) => Err(m@),
        Err(_) => Err(seq![]),
    }
}

/// Parses a command line given as its words, the program name first.
pub fn parse_args_from(args: &[&str]) -> (r: Result<CliArgs, CliError>)
    ensures
        r is Ok || r is Err && r->Err_0 is InvalidArgs,
        cli_res(r) == s_parse_args(args@.map_values(|s: &str| s@)),
{
    let ghost all = args@.map_values(|s: &str| s@);
    if args.len() < 2 {
        return Err(CliError::InvalidArgs(concat2("Missing command.\n", usage())));
    }
    let command = String::from_str(args[1]);
    if !command.eq(&String::from_str("run")) {
        let head = concat3("Unknown command '", args[1], "'. Expected 'run'.\n");
        return Err(CliError::InvalidArgs(concat2(head.as_str(), usage())));
    }
    if args.len() < 3 {
        return Err(CliError::InvalidArgs(concat2("Missing file path.\n", usage())));
    }
    let mut file_path: Option<String> = None;
    let mut repl = false;
    let mut debug = false;
    let mut print_ast = false;
    let mut i: usize = 2;
    while i < args.len()
        invariant
            2 <= i <= args@.len(),
            all == args@.map_values(|s: &str| s@),
            s_parse_args(all) == s_scan(
                all,
                i as nat,
                match file_path {
                    Some(p) => Some(p@),
                    None => None,
                },
                repl,
                debug,
                print_ast,
            ),
        decreases args@.len() - i,
    {
        let arg = String::from_str(args[i]);
        if arg.eq(&String::from_str("--repl")) {
            repl = true;
        } else if arg.eq(&String::from_str("--debug")) {
            debug = true;
        } else if arg.eq(&String::from_str("--print-ast")) {
            print_ast = true;
        } else if str_starts_with(args[i], "-") {
            let head = concat3("Unknown flag '", args[i], "'.\n");
            return Err(CliError::InvalidArgs(concat2(head.as_str(), usage())));
        } else if file_path.is_some() {
            return Err(
                CliError::InvalidArgs(
                    concat2("Multiple file paths given. Expected exactly one.\n", usage()),
                ),
            );
        } else {
            file_path = Some(arg);
        }
        i = i + 1;
    }
    let path = match file_path {
        Some(p) => p,
        None => {
            return Err(CliError::InvalidArgs(concat2("Missing file path.\n", usage())));
        },
    };
    let lowered = to_lowercase(path.as_str());
    if !str_ends_with(lowered.as_str(), ".vlx") {
        return Err(CliError::InvalidArgs(String::from_str("Invalid file extension: expected .vlx")));
    }
    Ok(CliArgs { file_path: path, repl, debug, print_ast })
}

/// Mathematical view of a command error.
pub enum SCliError {
    InvalidArgs(Seq<char>),
    Validation(VeltrixValidationError),
    Lex(LexErrorView),
    Parse(ParserErrorView),
    Semantic(SSemanticError),
    Runtime(SError),
}

pub open spec fn cli_err_v(e: CliError) -> SCliError {
    match e {
        CliError::InvalidArgs(m) => SCliError::InvalidArgs(m@),
        CliError::ValidationError(v) => SCliError::Validation(v),
        CliError::LexError(x) => SCliError::Lex(x@),
        CliError::ParseError(x) => SCliError::Parse(x@),
        CliError::SemanticError(x) => SCliError::Semantic(x@),
        CliError::RuntimeError(x) => SCliError::Runtime(x@),
    }
}

/// The text of a command error.
pub open spec fn cli_error_text(e: SCliError) -> Seq<char> {
    match e {
        SCliError::InvalidArgs(m) => m,
        SCliError::Validation(v) => validation_error_text(v),
        SCliError::Lex(x) => at_text("Lexer error"@, x.line, x.column, x.message),
        SCliError::Parse(x) => at_text("Parse error"@, x.line, x.column, x.message),
        SCliError::Semantic(x) => "Semantic error: "@ + x.message,
        SCliError::Runtime(x) => err_text(x),
    }
}

fn at_string(head: &str, line: usize, column: usize, message: &str) -> (r: String)
    ensures
        r@ == at_text(head@, line, column, message@),
{
    let l = usize_to_string(line);
    let c = usize_to_string(column);
    let mut out = String::from_str(head);
    out.append(" at line ");
    out.append(l.as_str());
    out.append(", column ");
    out.append(c.as_str());
    out.append(": ");
    out.append(message);
    out
}

impl CliError {
    /// The text of this error.
    pub fn to_display_string(&self) -> (r: String)
        ensures
            r@ == cli_error_text(cli_err_v(*self)),
    {
        match self {
            CliError::InvalidArgs(m) => m.clone(),
            CliError::ValidationError(v) => v.to_display_string(),
            CliError::LexError(e) => at_string("Lexer error", e.line, e.column, e.message.as_str()),
            CliError::ParseError(e) => at_string("Parse error", e.line, e.column, e.message.as_str()),
            CliError::SemanticError(e) => concat2("Semantic error: ", e.message.as_str()),
            CliError::RuntimeError(e) => e.to_display_string(),
        }
    }
}

/// The command error for a failed run: empty content is an empty file, a
/// REPL failure is reported as invalid use.
pub fn cli_error_from_pipeline(e: PipelineError) -> (r: CliError)
    ensures
        match e {
            PipelineError::EmptyContent => cli_err_v(r) == SCliError::Validation(VeltrixValidationError::EmptyFile),
            PipelineError::LexerError(x) => cli_err_v(r) == SCliError::Lex(x@),
            PipelineError::ParserError(x) => cli_err_v(r) == SCliError::Parse(x@),
            PipelineError::SemanticError(x) => cli_err_v(r) == SCliError::Semantic(x@),
            PipelineError::InterpreterError(x) => cli_err_v(r) == SCliError::Runtime(x@),
            PipelineError::ReplIoError(m) => cli_err_v(r) == SCliError::InvalidArgs("REPL I/O error: "@ + m@),
        },
{
    match e {
        PipelineError::EmptyContent => CliError::ValidationError(VeltrixValidationError::EmptyFile),
        PipelineError::LexerError(x) => CliError::LexError(x),
        PipelineError::ParserError(x) => CliError::ParseError(x),
        PipelineError::SemanticError(x) => CliError::SemanticError(x),
        PipelineError::InterpreterError(x) => CliError::RuntimeError(x),
        PipelineError::ReplIoError(m) => CliError::InvalidArgs(concat2("REPL I/O error: ", m.as_str())),
    }
}

/// The run flags of a command line.
pub fn run_flags(args: &CliArgs) -> (r: RunFlags)
    ensures
        r.print_ast == args.print_ast && r.debug == args.debug && r.repl == args.repl,
{
    RunFlags { print_ast: args.print_ast, debug: args.debug, repl: args.repl }
}

/// Runs the validated content of the command line's file through the
/// pipeline.
pub fn run(args: &CliArgs, content: &str) -> (r: PipelineRun)
    ensures
        pipe_res(r.result) == s_pipeline(content@, args.print_ast).0,
        lines_v(r.output@) == s_pipeline(content@, args.print_ast).1,
        r.program matches Some(p) ==> front_end(content@) == Ok::<Seq<SStmt>, SSourceError>(
            stmts_v(p.statements@),
        ),
        r.tokens is Some ==> args.debug,
        args.debug && !all_ws(content@) && lex(content@) is Ok ==> r.tokens is Some,
        r.tokens matches Some(ts) ==> lex(content@) == Ok::<Seq<TokenView>, LexErrorView>(
            tokens_view(ts@),
        ),
        r.interpreter matches Some(i) ==> {
            &&& i.wf()
            &&& r.program matches Some(p)
            &&& i@ == (IState {
                out: seq![],
                ..s_program(STEP_LIMIT as nat, fresh_state(), stmts_v(p.statements@), 0, SValue::Nil).0
            })
        },
{
    run_pipeline(content, run_flags(args))
}

} // verus!
