//! From source text to a program: the lexer, then the parser.
use vstd::prelude::*;
use crate::lexer::Lexer;
use crate::lexer::error::{LexError, LexErrorView};
use crate::lexer::spec::lex;
use super::Parser;
use super::ast::{Program, SStmt, stmts_v};
use super::error::{ParserError, ParserErrorView};
use super::spec::parse_program_spec;

verus! {

/// Why a source text is not a program.
#[derive(Debug)]
pub enum SourceError {
    Lex(LexError),
    Parse(ParserError),
}

/// Mathematical view of a source error.
pub enum SSourceError {
    Lex(LexErrorView),
    Parse(ParserErrorView),
}

/// The statements of a source text, or why it has none.
pub open spec fn front_end(src: Seq<char>) -> Result<Seq<SStmt>, SSourceError> {
    match lex(src) {
        Err(e) => Err(SSourceError::Lex(e)),
        Ok(ts) => match parse_program_spec(ts, 0).1 {
            Ok(ss) => Ok(ss),
            Err(e) => Err(SSourceError::Parse(e)),
        },
    }
}

pub open spec fn source_res(r: Result<Program, SourceError>) -> Result<Seq<SStmt>, SSourceError> {
    match r {
        Ok(p) => Ok(stmts_v(p.statements@)),
        Err(SourceError::Lex(e)) => Err(SSourceError::Lex(e@)),
        Err(SourceError::Parse(e)) => Err(SSourceError::Parse(e@)),
    }
}

/// Lexes and parses a source text.
pub fn parse_source(input: &str) -> (r: Result<Program, SourceError>)
    ensures
        source_res(r) == front_end(input@),
{
    let mut lexer = Lexer::new(input);
    let tokens = match lexer.tokenize() {
        Ok(t) => t,
        Err(e) => {
            return Err(SourceError::Lex(e));
        },
    };
    let mut parser = Parser::new(tokens);
    match parser.parse_program() {
        Ok(p) => Ok(p),
        Err(e) => Err(SourceError::Parse(e)),
    }
}

} // verus!
