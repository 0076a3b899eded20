//! The stages from source text to result: lexer, parser, semantic analysis,
//! interpreter. Printing debug output and starting the REPL are left to the
//! caller, which gets everything it needs in a `PipelineRun`.
pub mod laws;

use vstd::prelude::*;
use vstd::string::StringExecFns;
use std::sync::Arc;
use crate::text::{dec, concat2, usize_to_string, is_blank, all_ws};
use crate::lexer::{Lexer, copy_tokens, tokens_view};
use crate::lexer::token::{Token, TokenView};
use crate::lexer::error::{LexError, LexErrorView};
use crate::lexer::spec::lex;
use crate::parser::Parser;
use crate::parser::ast::{Program, SStmt, stmts_v};
use crate::parser::source::{front_end, SSourceError};
use crate::parser::error::{ParserError, ParserErrorView};
use crate::parser::spec::parse_program_spec;
use crate::semantic::{SemanticAnalyzer, SemanticError, SSemanticError};
use crate::semantic::spec::{AState, s_an_stmts};
use crate::native::registry::NativeFunctionRegistry;
use crate::interpreter::{Interpreter, STEP_LIMIT, lines_v};
use crate::interpreter::value::{Value, SValue};
use crate::interpreter::error::{RuntimeError, SError, err_text};
use crate::interpreter::spec::{IState, s_program};

verus! {

/// Flags of a run.
#[derive(Debug, Clone, Copy, PartialEq, Eq)]
pub struct RunFlags {
    /// Stop after parsing; the caller prints the syntax tree.
    pub print_ast: bool,
    /// The caller prints the tokens and the syntax tree.
    pub debug: bool,
    /// The caller starts the REPL after a successful run.
    pub repl: bool,
}

impl Default for RunFlags {
    fn default() -> (r: Self)
        ensures
            !r.print_ast && !r.debug && !r.repl,
    {
        Self { print_ast: false, debug: false, repl: false }
    }
}

/// The outcome of a successful run.
#[derive(Debug, Clone, PartialEq)]
pub struct ExecutionResult {
    /// The program's value, `Nil` when it has none.
    pub last_value: Value,
}

impl ExecutionResult {
    /// An outcome with the given value.
    pub fn new(last_value: Value) -> (r: Self)
        ensures
            r.last_value == last_value,
    {
        Self { last_value }
    }
}

/// Why a run failed, by stage.
#[derive(Debug)]
pub enum PipelineError {
    /// The content is empty or white space only.
    EmptyContent,
    LexerError(LexError),
    ParserError(ParserError),
    SemanticError(SemanticError),
    InterpreterError(RuntimeError),
    /// Reading or writing failed in the REPL.
    ReplIoError(String),
}

/// Mathematical view of a pipeline error.
pub enum SPipelineError {
    EmptyContent,
    Lexer(LexErrorView),
    Parser(ParserErrorView),
    Semantic(SSemanticError),
    Interpreter(SError),
    ReplIo(Seq<char>),
}

pub open spec fn pipe_err_v(e: PipelineError) -> SPipelineError {
    match e {
        PipelineError::EmptyContent => SPipelineError::EmptyContent,
        PipelineError::LexerError(x) => SPipelineError::Lexer(x@),
        PipelineError::ParserError(x) => SPipelineError::Parser(x@),
        PipelineError::SemanticError(x) => SPipelineError::Semantic(x@),
        PipelineError::InterpreterError(x) => SPipelineError::Interpreter(x@),
        PipelineError::ReplIoError(m) => SPipelineError::ReplIo(m@),
    }
}

pub open spec fn pipe_res(r: Result<ExecutionResult, PipelineError>) -> Result<SValue, SPipelineError> {
    match r {
        Ok(x) => Ok(x.last_value@),
        Err(e) => Err(pipe_err_v(e)),
    }
}

pub open spec fn at_text(head: Seq<char>, line: usize, column: usize, message: Seq<char>) -> Seq<char> {
    head + " at line "@ + dec(line as nat) + ", column "@ + dec(column as nat) + ": "@ + message
}

/// The text of a pipeline error.
pub open spec fn pipeline_error_text(e: SPipelineError) -> Seq<char> {
    match e {
        SPipelineError::EmptyContent => "Input is empty"@,
        SPipelineError::Lexer(x) => at_text("Lexer error"@, x.line, x.column, x.message),
        SPipelineError::Parser(x) => at_text("Parser error"@, x.line, x.column, x.message),
        SPipelineError::Semantic(x) => at_text("Semantic error"@, x.line, x.column, x.message),
        SPipelineError::Interpreter(x) => err_text(x),
        SPipelineError::ReplIo(m) => "REPL I/O error: "@ + m,
    }
}

fn at_string(head: &str, line: usize, column: usize, message: &str) -> (r: String)
    ensures
        r@ == at_text(head@, line, column, message@),
{
    let l = usize_to_string(line);
    let c = usize_to_string(column);
    let mut out = String::from_str(head);
    out.append(" at line ");
    out.append(l.as_str());
    out.append(", column ");
    out.append(c.as_str());
    out.append(": ");
    out.append(message);
    out
}

impl PipelineError {
    /// The text of this error.
    pub fn to_display_string(&self) -> (r: String)
        ensures
            r@ == pipeline_error_text(pipe_err_v(*self)),
    {
        match self {
            PipelineError::EmptyContent => String::from_str("Input is empty"),
            PipelineError::LexerError(e) => at_string("Lexer error", e.line, e.column, e.message.as_str()),
            PipelineError::ParserError(e) => at_string("Parser error", e.line, e.column, e.message.as_str()),
            PipelineError::SemanticError(e) => at_string(
                "Semantic error",
                e.line,
                e.column,
                e.message.as_str(),
            ),
            PipelineError::InterpreterError(e) => e.to_display_string(),
            PipelineError::ReplIoError(m) => concat2("REPL I/O error: ", m.as_str()),
        }
    }
}

/// The analyzer's state at the start of a run.
pub open spec fn fresh_analysis() -> AState {
    AState { scopes: seq![seq![]], table: seq![] }
}

/// The interpreter's state at the start of a run.
pub open spec fn fresh_state() -> IState {
    IState { scopes: seq![Map::empty()], depth: 0, out: seq![] }
}

/// A run of the stages on `content`: its result, and the lines the program
/// wrote.
pub open spec fn s_pipeline(content: Seq<char>, print_ast: bool) -> (Result<SValue, SPipelineError>, Seq<Seq<char>>) {
    if all_ws(content) {
        (Err(SPipelineError::EmptyContent), seq![])
    } else {
        match lex(content) {
            Err(e) => (Err(SPipelineError::Lexer(e)), seq![]),
            Ok(ts) => match parse_program_spec(ts, 0).1 {
                Err(e) => (Err(SPipelineError::Parser(e)), seq![]),
                Ok(ss) => if print_ast {
                    (Ok(SValue::Nil), seq![])
                } else {
                    match s_an_stmts(fresh_analysis(), Some(seq![]), ss, 0).1 {
                        Err(e) => (Err(SPipelineError::Semantic(e)), seq![]),
                        Ok(_) => {
                            let (st, r) = s_program(STEP_LIMIT as nat, fresh_state(), ss, 0, SValue::Nil);
                            match r {
                                Ok(v) => (Ok(v), st.out),
                                Err(e) => (Err(SPipelineError::Interpreter(e)), st.out),
                            }
                        },
                    }
                },
            },
        }
    }
}

/// What a run produced: the tokens (when debugging), the program (once
/// parsed), the lines the program wrote, the interpreter (after a successful
/// execution, for the REPL), and the result.
pub struct PipelineRun {
    pub tokens: Option<Vec<Token>>,
    pub program: Option<Program>,
    pub output: Vec<String>,
    pub interpreter: Option<Interpreter>,
    pub result: Result<ExecutionResult, PipelineError>,
}

/// Runs `content` through the stages.
pub fn run_pipeline(content: &str, flags: RunFlags) -> (r: PipelineRun)
    ensures
        pipe_res(r.result) == s_pipeline(content@, flags.print_ast).0,
        lines_v(r.output@) == s_pipeline(content@, flags.print_ast).1,
        r.program matches Some(p) ==> front_end(content@) == Ok::<Seq<SStmt>, SSourceError>(
            stmts_v(p.statements@),
        ),
        r.tokens is Some ==> flags.debug,
        flags.debug && !all_ws(content@) && lex(content@) is Ok ==> r.tokens is Some,
        r.tokens matches Some(ts) ==> lex(content@) == Ok::<Seq<TokenView>, LexErrorView>(
            tokens_view(ts@),
        ),
        r.interpreter matches Some(i) ==> {
            &&& i.wf()
            &&& r.program matches Some(p)
            &&& i@ == (IState {
                out: seq![],
                ..s_program(STEP_LIMIT as nat, fresh_state(), stmts_v(p.statements@), 0, SValue::Nil).0
            })
        },
{
    if is_blank(content) {
        let output: Vec<String> = Vec::new();
        assert(lines_v(output@) =~= seq![]);
        return PipelineRun {
            tokens: None,
            program: None,
            output,
            interpreter: None,
            result: Err(PipelineError::EmptyContent),
        };
    }
    let output: Vec<String> = Vec::new();
    assert(lines_v(output@) =~= seq![]);
    let mut lexer = Lexer::new(content);
    let tokens = match lexer.tokenize() {
        Ok(t) => t,
        Err(e) => {
            return PipelineRun {
                tokens: None,
                program: None,
                output,
                interpreter: None,
                result: Err(PipelineError::LexerError(e)),
            };
        },
    };
    let shown = if flags.debug {
        Some(copy_tokens(&tokens))
    } else {
        None
    };
    let mut parser = Parser::new(tokens);
    let program = match parser.parse_program() {
        Ok(p) => p,
        Err(e) => {
            return PipelineRun {
                tokens: shown,
                program: None,
                output,
                interpreter: None,
                result: Err(PipelineError::ParserError(e)),
            };
        },
    };
    if flags.print_ast {
        return PipelineRun {
            tokens: shown,
            program: Some(program),
            output,
            interpreter: None,
            result: Ok(ExecutionResult::new(Value::Nil)),
        };
    }
    let registry = Arc::new(NativeFunctionRegistry::empty());
    let mut analyzer = SemanticAnalyzer::with_native_registry(registry);
    match analyzer.analyze_program(&program) {
        Ok(()) => {},
        Err(e) => {
            return PipelineRun {
                tokens: shown,
                program: Some(program),
                output,
                interpreter: None,
                result: Err(PipelineError::SemanticError(e)),
            };
        },
    }
    let mut interpreter = Interpreter::new();
    let r = interpreter.execute_program(program.statements.as_slice());
    let written = interpreter.take_output();
    match r {
        Ok(v) => PipelineRun {
            tokens: shown,
            program: Some(program),
            output: written,
            interpreter: Some(interpreter),
            result: Ok(ExecutionResult::new(v)),
        },
        Err(e) => PipelineRun {
            tokens: shown,
            program: Some(program),
            output: written,
            interpreter: None,
            result: Err(PipelineError::InterpreterError(e)),
        },
    }
}

/// Runs `content` through the stages and gives the result.
pub fn run_vlx_content(content: &str, flags: RunFlags) -> (r: Result<ExecutionResult, PipelineError>)
    ensures
        pipe_res(r) == s_pipeline(content@, flags.print_ast).0,
{
    run_pipeline(content, flags).result
}

} // verus!
