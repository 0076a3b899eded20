//! Properties of a run through the stages.
use vstd::prelude::*;
use crate::interpreter::value::SValue;
use super::{s_pipeline, SPipelineError};

verus! {

/// With `print_ast` nothing is executed: nothing is written, the value is
/// nil, and the run fails only on empty content or a lexical or syntax
/// error. Without it, a program that analysis refuses writes nothing.
pub proof fn law_print_ast_skips_execution(content: Seq<char>)
    ensures
        s_pipeline(content, true).1 == Seq::<Seq<char>>::empty(),
        s_pipeline(content, true).0 matches Ok(v) ==> v == SValue::Nil,
        s_pipeline(content, true).0 matches Err(e) ==> (e is EmptyContent || e is Lexer || e is Parser),
        s_pipeline(content, false).0 matches Err(SPipelineError::Semantic(_)) ==> s_pipeline(
            content,
            false,
        ).1 == Seq::<Seq<char>>::empty(),
{
}

} // verus!
