//! The read-evaluate-print loop: what it does with each line and each input,
//! with the reading and printing left to its caller.
use vstd::prelude::*;
use vstd::string::{StringExecFns, StrSliceExecFns};
use crate::text::{
    dec, concat2, concat3, usize_to_string, to_lowercase, lowercase, str_contains, contains_seq,
    trim, trim_end, trim_seq, trim_end_seq,
};
use crate::interpreter::{Interpreter, ControlFlow, STEP_LIMIT, res_flow, lines_v};
use crate::interpreter::value::{Value, FunctionValue, SValue, display};
use crate::interpreter::error::{RuntimeError, SError, err_text};
use crate::interpreter::spec::{
    IState, SFlow, STop, s_top_block, s_eval, s_set, s_if, s_while, s_for, s_block, st_define,
};
use crate::lexer::error::LexErrorView;
use crate::parser::ast::{
    Statement, SStmt, stmt_v, stmts_v, copy_names, copy_stmts, lemma_stmts_v_len,
    lemma_stmts_v_index,
};
use crate::parser::error::ParserErrorView;
use crate::parser::source::{parse_source, SourceError, SSourceError, front_end};

verus! {

broadcast use vstd::std_specs::vec::group_vec_axioms;

/// What one line of input amounts to.
#[derive(Debug, Clone, PartialEq)]
pub enum ReadResult {
    /// A complete input, ready to evaluate.
    Complete(String),
    /// The user asked to leave.
    Exit,
    /// An empty line.
    Empty,
    /// An incomplete input; more lines are needed.
    Continue(String),
    /// An input that cannot become a program.
    ParseError(String),
}

/// What evaluating one input gave.
#[derive(Debug, Clone, PartialEq)]
pub enum EvalResult {
    /// The value of the final expression.
    Value(Value),
    /// Success without a value.
    Done,
    /// A function was defined.
    FunctionDefined(String),
    /// A run-time error.
    Error(RuntimeError),
    /// The input is not a program.
    ParseError(String),
}

/// Whether an input can be parsed.
#[derive(Debug, Clone, PartialEq)]
pub enum InputStatus {
    Complete,
    Incomplete,
    Error(String),
}

/// Mathematical view of an evaluation result.
pub enum SEval {
    Value(SValue),
    Done,
    FunctionDefined(Seq<char>),
    Error(SError),
    ParseError(Seq<char>),
}

pub open spec fn eval_v(r: EvalResult) -> SEval {
    match r {
        EvalResult::Value(v) => SEval::Value(v@),
        EvalResult::Done => SEval::Done,
        EvalResult::FunctionDefined(n) => SEval::FunctionDefined(n@),
        EvalResult::Error(e) => SEval::Error(e@),
        EvalResult::ParseError(m) => SEval::ParseError(m@),
    }
}

/// Mathematical view of a line's meaning.
pub enum SRead {
    Complete(Seq<char>),
    Exit,
    Empty,
    Continue(Seq<char>),
    ParseError(Seq<char>),
}

pub open spec fn read_v(r: ReadResult) -> SRead {
    match r {
        ReadResult::Complete(s) => SRead::Complete(s@),
        ReadResult::Exit => SRead::Exit,
        ReadResult::Empty => SRead::Empty,
        ReadResult::Continue(s) => SRead::Continue(s@),
        ReadResult::ParseError(s) => SRead::ParseError(s@),
    }
}

/// Mathematical view of an input status.
pub enum SStatus {
    Complete,
    Incomplete,
    Error(Seq<char>),
}

pub open spec fn status_v(s: InputStatus) -> SStatus {
    match s {
        InputStatus::Complete => SStatus::Complete,
        InputStatus::Incomplete => SStatus::Incomplete,
        InputStatus::Error(m) => SStatus::Error(m@),
    }
}

pub open spec fn lex_failure_text(e: LexErrorView) -> Seq<char> {
    "Lexer error at line "@ + dec(e.line as nat) + ", column "@ + dec(e.column as nat) + ": "@
        + e.message
}

pub open spec fn parse_failure_text(e: ParserErrorView) -> Seq<char> {
    "Parse error at line "@ + dec(e.line as nat) + ", column "@ + dec(e.column as nat) + ": "@
        + e.message
}

/// A parse failure reads as an incomplete input when its lower-cased message
/// speaks of an unexpected end, of something expected, or of incompleteness.
pub open spec fn classify(lowered: Seq<char>, message: Seq<char>) -> SStatus {
    if contains_seq(lowered, "unexpected end"@) || contains_seq(lowered, "expected"@)
        || contains_seq(lowered, "incomplete"@) || contains_seq(lowered, "unexpected eof"@) {
        SStatus::Incomplete
    } else {
        SStatus::Error(message)
    }
}

/// Whether a source text is a complete program.
pub open spec fn input_status(src: Seq<char>) -> SStatus {
    match front_end(src) {
        Ok(_) => SStatus::Complete,
        Err(SSourceError::Lex(_)) => SStatus::Error("Lexer error"@),
        Err(SSourceError::Parse(e)) => classify(lowercase(e.message), e.message),
    }
}

/// One statement as the REPL runs it: each evaluation has the full step
/// budget, and `return` is allowed at the top.
pub open spec fn s_repl_stmt(st: IState, s: SStmt) -> (IState, Result<SFlow, SError>) {
    let t = STEP_LIMIT as nat;
    match s {
        SStmt::Let(name, e) => {
            let (st1, r) = s_eval(t, st, e);
            match r {
                Ok(v) => (st_define(st1, name, v), Ok(SFlow::Continue)),
                Err(er) => (st1, Err(er)),
            }
        },
        SStmt::Assign(name, e) => {
            let (st1, r) = s_eval(t, st, e);
            match r {
                Ok(v) => {
                    let (st2, a) = s_set(st1, name, v);
                    match a {
                        Ok(_) => (st2, Ok(SFlow::Continue)),
                        Err(er) => (st2, Err(er)),
                    }
                },
                Err(er) => (st1, Err(er)),
            }
        },
        SStmt::If(c, cons, alt) => s_if(t, st, c, cons, alt),
        SStmt::While(c, body) => s_while(t, st, c, body),
        SStmt::For(item, list, body) => s_for(t, st, item, list, body),
        SStmt::Block(ss) => s_block(t, st, ss),
        SStmt::Return(None) => (st, Ok(SFlow::Return(None))),
        SStmt::Return(Some(e)) => {
            let (st1, r) = s_eval(t, st, e);
            match r {
                Ok(v) => (st1, Ok(SFlow::Return(Some(v)))),
                Err(er) => (st1, Err(er)),
            }
        },
        SStmt::Write(e) => {
            let (st1, r) = s_eval(t, st, e);
            match r {
                Ok(v) => (IState { out: st1.out.push(display(v)), ..st1 }, Ok(SFlow::Continue)),
                Err(er) => (st1, Err(er)),
            }
        },
        SStmt::Expr(e) => {
            let (st1, r) = s_eval(t, st, e);
            match r {
                Ok(_) => (st1, Ok(SFlow::Continue)),
                Err(er) => (st1, Err(er)),
            }
        },
        SStmt::Func(_, _, _) => (st, Ok(SFlow::Continue)),
    }
}

/// Defines every function declared in `ss[i..]`, in order.
pub open spec fn s_register(st: IState, ss: Seq<SStmt>, i: nat) -> IState
    decreases ss.len() - i,
{
    if i >= ss.len() {
        st
    } else {
        let st1 = match ss[i as int] {
            SStmt::Func(name, params, body) => st_define(st, name, SValue::Function(params, body)),
            _ => st,
        };
        s_register(st1, ss, i + 1)
    }
}

/// Whether a statement ends in an expression statement: it is one, or it is
/// a block whose last statement ends in one.
pub open spec fn ends_in_expr(s: SStmt) -> bool
    decreases s,
{
    match s {
        SStmt::Expr(_) => true,
        SStmt::Block(b) => b.len() > 0 && ends_in_expr(b[b.len() - 1]),
        _ => false,
    }
}

/// The value the REPL shows after the statements: the last value when the
/// final statement ends in an expression or is a `return`.
pub open spec fn s_repl_final(ss: Seq<SStmt>, last: SValue) -> SEval {
    if ss.len() > 0 && (ends_in_expr(ss.last()) || ss.last() is Return) {
        SEval::Value(last)
    } else {
        SEval::Done
    }
}

/// Runs `ss[i..]`: an expression statement is evaluated once and gives the
/// value, a block runs in its own scope and its last expression gives the
/// value, a `return` gives its value, and a function declaration ends the
/// input.
pub open spec fn s_repl_run(st: IState, ss: Seq<SStmt>, i: nat, last: SValue) -> (IState, SEval)
    decreases ss.len() - i,
{
    if i >= ss.len() {
        (st, s_repl_final(ss, last))
    } else {
        match ss[i as int] {
            SStmt::Expr(e) => {
                let (st1, r) = s_eval(STEP_LIMIT as nat, st, e);
                match r {
                    Err(er) => (st1, SEval::Error(er)),
                    Ok(v) => s_repl_run(st1, ss, i + 1, v),
                }
            },
            SStmt::Block(b) => {
                let (st1, r) = s_top_block(STEP_LIMIT as nat, st, b, last);
                match r {
                    Err(er) => (st1, SEval::Error(er)),
                    Ok(STop::Fell(l)) => s_repl_run(st1, ss, i + 1, l),
                    Ok(STop::Returned(l)) => s_repl_run(st1, ss, i + 1, l),
                }
            },
            _ => {
                let (st1, r) = s_repl_stmt(st, ss[i as int]);
                match r {
                    Err(e) => (st1, SEval::Error(e)),
                    Ok(SFlow::Return(v)) => s_repl_run(
                        st1,
                        ss,
                        i + 1,
                        match v {
                            Some(x) => x,
                            None => SValue::Nil,
                        },
                    ),
                    Ok(SFlow::Continue) => match ss[i as int] {
                        SStmt::Func(name, _, _) => (st1, SEval::FunctionDefined(name)),
                        _ => s_repl_run(st1, ss, i + 1, last),
                    },
                }
            },
        }
    }
}

/// Evaluates one input against the interpreter state.
pub open spec fn s_evaluate_input(st: IState, src: Seq<char>) -> (IState, SEval) {
    match front_end(src) {
        Err(SSourceError::Lex(e)) => (st, SEval::ParseError(lex_failure_text(e))),
        Err(SSourceError::Parse(e)) => (st, SEval::ParseError(parse_failure_text(e))),
        Ok(ss) => s_repl_run(s_register(st, ss, 0), ss, 0, SValue::Nil),
    }
}

/// The meaning of a line read with `buffer` pending.
pub open spec fn s_read(buffer: Seq<char>, line: Seq<char>) -> SRead {
    let input = trim_end_seq(line);
    if trim_seq(input) == "exit"@ {
        SRead::Exit
    } else if trim_seq(input).len() == 0 {
        if buffer.len() > 0 {
            SRead::Complete(buffer)
        } else {
            SRead::Empty
        }
    } else {
        let full = if buffer.len() == 0 { input } else { buffer + "\n"@ + input };
        match input_status(full) {
            SStatus::Complete => SRead::Complete(full),
            SStatus::Incomplete => SRead::Continue(full),
            SStatus::Error(m) => SRead::ParseError(m),
        }
    }
}

/// What the loop prints after an evaluation: on standard output and on
/// standard error.
pub open spec fn eval_reply(r: SEval) -> (Seq<Seq<char>>, Seq<Seq<char>>) {
    match r {
        SEval::Value(v) => (seq![display(v)], seq![]),
        SEval::Done => (seq![], seq![]),
        SEval::FunctionDefined(n) => (seq!["Defined function '"@ + n + "'"@], seq![]),
        SEval::Error(e) => (seq![], seq![err_text(e)]),
        SEval::ParseError(m) => (seq![], seq!["Parse error: "@ + m]),
    }
}

/// What the loop prints for one step, and whether it stops.
#[derive(Debug, Clone, PartialEq)]
pub struct ReplReply {
    pub stdout: Vec<String>,
    pub stderr: Vec<String>,
    pub exit: bool,
}

/// The interactive interpreter.
pub struct Repl {
    interpreter: Interpreter,
    pub multi_line_buffer: String,
    pub indent_level: usize,
}

/// Classifies a parse failure, given its message and the message lower-cased.
pub fn classify_parse_failure(lowered: &str, message: String) -> (r: InputStatus)
    ensures
        status_v(r) == classify(lowered@, message@),
{
    if str_contains(lowered, "unexpected end") || str_contains(lowered, "expected") || str_contains(
        lowered,
        "incomplete",
    ) || str_contains(lowered, "unexpected eof") {
        InputStatus::Incomplete
    } else {
        InputStatus::Error(message)
    }
}

fn position_text(head: &str, line: usize, column: usize, message: &str) -> (r: String)
    ensures
        r@ == head@ + dec(line as nat) + ", column "@ + dec(column as nat) + ": "@ + message@,
{
    let l = usize_to_string(line);
    let c = usize_to_string(column);
    let a = concat3(head, l.as_str(), ", column ");
    let b = concat3(a.as_str(), c.as_str(), ": ");
    concat2(b.as_str(), message)
}

/// Whether an input is a complete program, an incomplete one, or an error.
pub fn input_status_of(input: &str) -> (r: InputStatus)
    ensures
        status_v(r) == input_status(input@),
{
    match parse_source(input) {
        Ok(_) => InputStatus::Complete,
        Err(SourceError::Lex(_)) => InputStatus::Error(String::from_str("Lexer error")),
        Err(SourceError::Parse(e)) => {
            let lowered = to_lowercase(e.message.as_str());
            classify_parse_failure(lowered.as_str(), e.message)
        },
    }
}

impl Repl {
    /// Well-formedness: the interpreter is well formed.
    pub closed spec fn wf(&self) -> bool {
        self.interpreter.wf()
    }

    /// The interpreter's state.
    pub closed spec fn state(&self) -> IState {
        self.interpreter@
    }

    /// The pending input.
    pub closed spec fn buffer(&self) -> Seq<char> {
        self.multi_line_buffer@
    }

    /// How many continuation lines the pending input has.
    pub closed spec fn indent(&self) -> usize {
        self.indent_level
    }

    /// A REPL with a fresh interpreter and no pending input.
    pub fn new() -> (r: Self)
        ensures
            r.wf(),
            r.state() == (IState { scopes: seq![Map::empty()], depth: 0, out: seq![] }),
            r.buffer() == Seq::<char>::empty(),
            r.indent() == 0,
    {
        Self { interpreter: Interpreter::new(), multi_line_buffer: String::new(), indent_level: 0 }
    }

    /// A REPL that goes on from an interpreter's state.
    pub fn with_interpreter(interpreter: Interpreter) -> (r: Self)
        ensures
            r.wf() == interpreter.wf(),
            r.state() == interpreter@,
            r.buffer() == Seq::<char>::empty(),
            r.indent() == 0,
    {
        Self { interpreter, multi_line_buffer: String::new(), indent_level: 0 }
    }

    /// The interpreter.
    pub fn interpreter(&self) -> (r: &Interpreter)
        ensures
            r@ == self.state(),
            self.wf() ==> r.wf(),
    {
        &self.interpreter
    }

    /// Whether an input is complete.
    pub fn is_complete_input(&self, input: &str) -> (r: InputStatus)
        ensures
            status_v(r) == input_status(input@),
    {
        input_status_of(input)
    }

    /// The meaning of one line typed at the prompt, given the pending input.
    pub fn read_line_result(&self, line: &str) -> (r: ReadResult)
        ensures
            read_v(r) == s_read(self.buffer(), line@),
    {
        let input = trim_end(line);
        let t = trim(input.as_str());
        if t.eq(&String::from_str("exit")) {
            return ReadResult::Exit;
        }
        if t.as_str().unicode_len() == 0 {
            if self.multi_line_buffer.as_str().unicode_len() != 0 {
                return ReadResult::Complete(self.multi_line_buffer.clone());
            }
            return ReadResult::Empty;
        }
        let full = if self.multi_line_buffer.as_str().unicode_len() == 0 {
            input
        } else {
            concat3(self.multi_line_buffer.as_str(), "\n", input.as_str())
        };
        match self.is_complete_input(full.as_str()) {
            InputStatus::Complete => ReadResult::Complete(full),
            InputStatus::Incomplete => ReadResult::Continue(full),
            InputStatus::Error(m) => ReadResult::ParseError(m),
        }
    }

    /// The prompt to show.
    pub fn prompt(&self) -> (r: &'static str)
        ensures
            r@ == (if self.buffer().len() == 0 { "veltrix> "@ } else { "...    "@ }),
    {
        if self.multi_line_buffer.as_str().unicode_len() == 0 {
            "veltrix> "
        } else {
            "...    "
        }
    }

    /// Clears the pending input.
    pub fn reset_buffer(&mut self)
        ensures
            final(self).buffer() == Seq::<char>::empty(),
            final(self).indent() == 0,
            final(self).state() == old(self).state(),
            final(self).wf() == old(self).wf(),
    {
        self.multi_line_buffer = String::new();
        self.indent_level = 0;
    }

    fn execute_repl_statement(&mut self, stmt: &Statement) -> (r: Result<ControlFlow, RuntimeError>)
        requires
            old(self).wf(),
        ensures
            final(self).wf(),
            (final(self).state(), res_flow(r)) == s_repl_stmt(old(self).state(), stmt_v(*stmt)),
            final(self).buffer() == old(self).buffer(),
            final(self).indent() == old(self).indent(),
    {
        match stmt {
            Statement::Let(l) => match self.interpreter.evaluate_expression_for_repl(&l.value) {
                Ok(v) => {
                    self.interpreter.environment_mut().define(l.name.clone(), v);
                    Ok(ControlFlow::Continue)
                },
                Err(e) => Err(e),
            },
            Statement::Assignment(a) => match self.interpreter.evaluate_expression_for_repl(&a.value) {
                Ok(v) => match self.interpreter.environment_mut().assign(a.name.as_str(), v) {
                    Ok(()) => Ok(ControlFlow::Continue),
                    Err(e) => Err(e),
                },
                Err(e) => Err(e),
            },
            Statement::If(i) => self.interpreter.execute_if_statement(i),
            Statement::While(w) => self.interpreter.execute_while_loop(w),
            Statement::For(f) => self.interpreter.execute_for_loop(f),
            Statement::Block(ss) => self.interpreter.execute_block(ss.as_slice()),
            Statement::Return(ret) => match &ret.value {
                None => Ok(ControlFlow::Return(None)),
                Some(e) => match self.interpreter.evaluate_expression_for_repl(e) {
                    Ok(v) => Ok(ControlFlow::Return(Some(v))),
                    Err(er) => Err(er),
                },
            },
            Statement::Write(w) => match self.interpreter.evaluate_expression_for_repl(&w.value) {
                Ok(v) => {
                    self.interpreter.emit(v.to_display_string());
                    Ok(ControlFlow::Continue)
                },
                Err(e) => Err(e),
            },
            Statement::Expression(e) => match self.interpreter.evaluate_expression_for_repl(e) {
                Ok(_) => Ok(ControlFlow::Continue),
                Err(er) => Err(er),
            },
            Statement::FunctionDeclaration(_) => Ok(ControlFlow::Continue),
        }
    }

    /// Evaluates one input; the interpreter state persists between inputs.
    pub fn evaluate_input(&mut self, input: &str) -> (r: EvalResult)
        requires
            old(self).wf(),
        ensures
            final(self).wf(),
            (final(self).state(), eval_v(r)) == s_evaluate_input(old(self).state(), input@),
            final(self).buffer() == old(self).buffer(),
            final(self).indent() == old(self).indent(),
    {
        let program = match parse_source(input) {
            Ok(p) => p,
            Err(SourceError::Lex(e)) => {
                return EvalResult::ParseError(
                    position_text("Lexer error at line ", e.line, e.column, e.message.as_str()),
                );
            },
            Err(SourceError::Parse(e)) => {
                return EvalResult::ParseError(
                    position_text("Parse error at line ", e.line, e.column, e.message.as_str()),
                );
            },
        };
        let stmts = &program.statements;
        let ghost ss = stmts_v(stmts@);
        proof {
            lemma_stmts_v_len(stmts@);
        }
        let mut i: usize = 0;
        while i < stmts.len()
            invariant
                self.wf(),
                i <= stmts@.len(),
                ss == stmts_v(stmts@),
                ss.len() == stmts@.len(),
                s_register(old(self).state(), ss, 0) == s_register(self.state(), ss, i as nat),
                s_evaluate_input(old(self).state(), input@) == s_repl_run(
                    s_register(old(self).state(), ss, 0),
                    ss,
                    0,
                    SValue::Nil,
                ),
                self.multi_line_buffer@ == old(self).multi_line_buffer@,
                self.indent_level == old(self).indent_level,
            decreases stmts@.len() - i,
        {
            proof {
                lemma_stmts_v_index(stmts@, i as int);
            }
            match &stmts[i] {
                Statement::FunctionDeclaration(func) => {
                    let fv = Value::Function(
                        FunctionValue {
                            parameters: copy_names(&func.params),
                            body: copy_stmts(&func.body),
                        },
                    );
                    self.interpreter.environment_mut().define(func.name.clone(), fv);
                },
                _ => {},
            }
            i = i + 1;
        }
        let mut last = Value::Nil;
        let mut k: usize = 0;
        while k < stmts.len()
            invariant
                self.wf(),
                k <= stmts@.len(),
                ss == stmts_v(stmts@),
                ss.len() == stmts@.len(),
                s_evaluate_input(old(self).state(), input@) == s_repl_run(
                    s_register(old(self).state(), ss, 0),
                    ss,
                    0,
                    SValue::Nil,
                ),
                s_repl_run(s_register(old(self).state(), ss, 0), ss, 0, SValue::Nil) == s_repl_run(
                    self.state(),
                    ss,
                    k as nat,
                    last@,
                ),
                self.multi_line_buffer@ == old(self).multi_line_buffer@,
                self.indent_level == old(self).indent_level,
            decreases stmts@.len() - k,
        {
            proof {
                lemma_stmts_v_index(stmts@, k as int);
            }
            match &stmts[k] {
                Statement::Block(b) => match self.interpreter.top_block(b.as_slice(), last, STEP_LIMIT) {
                    Ok((l, _)) => {
                        last = l;
                    },
                    Err(er) => {
                        return EvalResult::Error(er);
                    },
                },
                Statement::Expression(e) => match self.interpreter.evaluate_expression_for_repl(e) {
                    Ok(v) => {
                        last = v;
                    },
                    Err(er) => {
                        return EvalResult::Error(er);
                    },
                },
                _ => {
                    let flow = match self.execute_repl_statement(&stmts[k]) {
                        Ok(f) => f,
                        Err(e) => {
                            return EvalResult::Error(e);
                        },
                    };
                    match flow {
                        ControlFlow::Return(v) => {
                            last = match v {
                                Some(x) => x,
                                None => Value::Nil,
                            };
                        },
                        ControlFlow::Continue => match &stmts[k] {
                            Statement::FunctionDeclaration(func) => {
                                return EvalResult::FunctionDefined(func.name.clone());
                            },
                            _ => {},
                        },
                    }
                },
            }
            k = k + 1;
        }
        let n = stmts.len();
        if n > 0 {
            proof {
                lemma_stmts_v_index(stmts@, n - 1);
            }
            let shown = match &stmts[n - 1] {
                Statement::Return(_) => true,
                s => ends_in_expr_exec(s),
            };
            if shown {
                return EvalResult::Value(last);
            }
        }
        EvalResult::Done
    }

    /// One turn of the loop: what a line's meaning makes the REPL print, and
    /// whether it stops. The lines that `write` produced come before the
    /// value.
    pub fn step(&mut self, r: ReadResult) -> (reply: ReplReply)
        requires
            old(self).wf(),
        ensures
            final(self).wf(),
            match read_v(r) {
                SRead::Complete(input) => {
                    let (st1, ev) = s_evaluate_input(old(self).state(), input);
                    &&& final(self).state() == (IState { out: seq![], ..st1 })
                    &&& final(self).buffer() == Seq::<char>::empty()
                    &&& final(self).indent() == 0
                    &&& lines_v(reply.stdout@) == st1.out + eval_reply(ev).0
                    &&& lines_v(reply.stderr@) == eval_reply(ev).1
                    &&& !reply.exit
                },
                SRead::Continue(partial) => {
                    &&& final(self).state() == old(self).state()
                    &&& final(self).buffer() == partial
                    &&& final(self).indent() == if old(self).indent() < usize::MAX {
                        (old(self).indent() + 1) as usize
                    } else {
                        old(self).indent()
                    }
                    &&& reply.stdout@.len() == 0 && reply.stderr@.len() == 0 && !reply.exit
                },
                SRead::Exit => {
                    &&& final(self).state() == old(self).state()
                    &&& final(self).buffer() == old(self).buffer()
                    &&& final(self).indent() == old(self).indent()
                    &&& lines_v(reply.stdout@) == seq!["Goodbye!"@]
                    &&& reply.stderr@.len() == 0 && reply.exit
                },
                SRead::Empty => {
                    &&& final(self).state() == old(self).state()
                    &&& final(self).buffer() == old(self).buffer()
                    &&& final(self).indent() == old(self).indent()
                    &&& reply.stdout@.len() == 0 && reply.stderr@.len() == 0 && !reply.exit
                },
                SRead::ParseError(m) => {
                    &&& final(self).state() == old(self).state()
                    &&& final(self).buffer() == Seq::<char>::empty()
                    &&& final(self).indent() == 0
                    &&& reply.stdout@.len() == 0
                    &&& lines_v(reply.stderr@) == seq!["Input error: "@ + m]
                    &&& !reply.exit
                },
            },
    {
        match r {
            ReadResult::Complete(input) => {
                self.reset_buffer();
                let result = self.evaluate_input(input.as_str());
                let mut stdout = self.interpreter.take_output();
                let ghost written = lines_v(stdout@);
                let mut stderr: Vec<String> = Vec::new();
                match result {
                    EvalResult::Value(v) => stdout.push(v.to_display_string()),
                    EvalResult::Done => {},
                    EvalResult::FunctionDefined(name) => stdout.push(
                        concat3("Defined function '", name.as_str(), "'"),
                    ),
                    EvalResult::Error(e) => stderr.push(e.to_display_string()),
                    EvalResult::ParseError(m) => stderr.push(concat2("Parse error: ", m.as_str())),
                }
                assert(lines_v(stdout@) =~= written + eval_reply(eval_v(result)).0);
                assert(lines_v(stderr@) =~= eval_reply(eval_v(result)).1);
                ReplReply { stdout, stderr, exit: false }
            },
            ReadResult::Continue(partial) => {
                self.multi_line_buffer = partial;
                if self.indent_level < usize::MAX {
                    self.indent_level = self.indent_level + 1;
                }
                ReplReply { stdout: Vec::new(), stderr: Vec::new(), exit: false }
            },
            ReadResult::Exit => {
                let mut stdout: Vec<String> = Vec::new();
                stdout.push(String::from_str("Goodbye!"));
                assert(lines_v(stdout@) =~= seq!["Goodbye!"@]);
                ReplReply { stdout, stderr: Vec::new(), exit: true }
            },
            ReadResult::Empty => ReplReply { stdout: Vec::new(), stderr: Vec::new(), exit: false },
            ReadResult::ParseError(m) => {
                let mut stderr: Vec<String> = Vec::new();
                stderr.push(concat2("Input error: ", m.as_str()));
                assert(lines_v(stderr@) =~= seq!["Input error: "@ + m@]);
                self.reset_buffer();
                ReplReply { stdout: Vec::new(), stderr, exit: false }
            },
        }
    }
}

impl Default for Repl {
    fn default() -> (r: Self)
        ensures
            r.wf(),
            r.state() == (IState { scopes: seq![Map::empty()], depth: 0, out: seq![] }),
            r.buffer() == Seq::<char>::empty(),
            r.indent() == 0,
    {
        Self::new()
    }
}

/// The meaning of an input on its own: complete, incomplete, or an error.
pub fn read_input_line(input: &str) -> (r: ReadResult)
    ensures
        read_v(r) == match input_status(input@) {
            SStatus::Complete => SRead::Complete(input@),
            SStatus::Incomplete => SRead::Continue(input@),
            SStatus::Error(m) => SRead::ParseError(m),
        },
{
    let repl = Repl::new();
    match repl.is_complete_input(input) {
        InputStatus::Complete => ReadResult::Complete(String::from_str(input)),
        InputStatus::Incomplete => ReadResult::Continue(String::from_str(input)),
        InputStatus::Error(msg) => ReadResult::ParseError(msg),
    }
}

/// Evaluates one input in a fresh REPL.
pub fn evaluate_line(input: &str) -> (r: EvalResult)
    ensures
        eval_v(r) == s_evaluate_input(IState { scopes: seq![Map::empty()], depth: 0, out: seq![] }, input@).1,
{
    let mut repl = Repl::new();
    repl.evaluate_input(input)
}

/// The results of evaluating inputs in turn in one fresh REPL.
pub open spec fn s_evaluate_all(st: IState, inputs: Seq<Seq<char>>) -> Seq<SEval>
    decreases inputs.len(),
{
    if inputs.len() == 0 {
        seq![]
    } else {
        let (st1, r) = s_evaluate_input(st, inputs[0]);
        seq![r] + s_evaluate_all(st1, inputs.drop_first())
    }
}

/// Evaluates inputs in turn, in one REPL whose state persists.
pub fn evaluate_lines(inputs: &[&str]) -> (r: Vec<EvalResult>)
    ensures
        r@.len() == inputs@.len(),
        forall|i: int| 0 <= i < r@.len() ==> eval_v(#[trigger] r@[i]) == s_evaluate_all(
            IState { scopes: seq![Map::empty()], depth: 0, out: seq![] },
            inputs@.map_values(|s: &str| s@),
        )[i],
{
    let ghost all = inputs@.map_values(|s: &str| s@);
    let ghost st0 = IState { scopes: seq![Map::empty()], depth: 0, out: seq![] };
    let mut repl = Repl::new();
    let mut out: Vec<EvalResult> = Vec::new();
    let mut i: usize = 0;
    proof {
        assert(all.subrange(0, all.len() as int) =~= all);
        lemma_evaluate_all_len(st0, all);
    }
    while i < inputs.len()
        invariant
            repl.wf(),
            i <= inputs@.len(),
            all == inputs@.map_values(|s: &str| s@),
            out@.len() == i,
            s_evaluate_all(st0, all) =~= s_evaluate_all(st0, all).subrange(0, i as int) + s_evaluate_all(
                repl.state(),
                all.subrange(i as int, all.len() as int),
            ),
            s_evaluate_all(st0, all).len() == all.len(),
            forall|j: int| 0 <= j < i ==> eval_v(#[trigger] out@[j]) == s_evaluate_all(st0, all)[j],
        decreases inputs@.len() - i,
    {
        let ghost before = repl.state();
        let r = repl.evaluate_input(inputs[i]);
        proof {
            let rest = all.subrange(i as int, all.len() as int);
            assert(rest[0] == inputs@[i as int]@);
            assert(rest.drop_first() =~= all.subrange(i + 1, all.len() as int));
            assert(s_evaluate_all(before, rest) == seq![eval_v(r)] + s_evaluate_all(
                repl.state(),
                all.subrange(i + 1, all.len() as int),
            ));
            assert(s_evaluate_all(st0, all).subrange(0, i + 1) =~= s_evaluate_all(st0, all).subrange(
                0,
                i as int,
            ) + seq![eval_v(r)]);
        }
        out.push(r);
        i = i + 1;
    }
    out
}

proof fn lemma_evaluate_all_len(st: IState, inputs: Seq<Seq<char>>)
    ensures
        s_evaluate_all(st, inputs).len() == inputs.len(),
    decreases inputs.len(),
{
    if inputs.len() > 0 {
        let (st1, r) = s_evaluate_input(st, inputs[0]);
        lemma_evaluate_all_len(st1, inputs.drop_first());
    }
}

/// An input that is not a program leaves the interpreter's state as it was.
pub proof fn law_failed_input_keeps_state(st: IState, src: Seq<char>)
    ensures
        front_end(src) is Err ==> s_evaluate_input(st, src).0 == st,
{
}

/// Whether a statement ends in an expression statement.
fn ends_in_expr_exec(s: &Statement) -> (r: bool)
    ensures
        r == ends_in_expr(stmt_v(*s)),
    decreases *s,
{
    match s {
        Statement::Expression(_) => true,
        Statement::Block(b) => {
            assert(decreases_to!(*s => (*s)->Block_0));
            if b.len() == 0 {
                proof {
                    lemma_stmts_v_len(b@);
                }
                false
            } else {
                proof {
                    lemma_stmts_v_index(b@, b.len() - 1);
                }
                ends_in_expr_exec(&b[b.len() - 1])
            }
        },
        _ => false,
    }
}

} // verus!
