# Veltrix

Veltrix is a small indentation-structured scripting language: a lexer, a
recursive-descent parser, a semantic analyzer and a tree-walking
interpreter, with an interactive REPL and a `veltrix run <file.vlx>`
command. The library in `src/` is verified with Verus: every stage is
specified against a mathematical model and proved to meet it. The one
exception is which extension `std::path::Path` finds in a path with
directories; for a plain file name it is stated exactly.

## Layout

- `src/text.rs` — string helpers (decimal notation, trimming, searching).
- `src/lexer/` — tokens, the lexer as a step machine (`spec.rs`), its
  implementation (`mod.rs`), the balance of `Indent`/`Dedent` (`laws.rs`),
  and the laws on whole lines: blank and comment-only lines are ignored,
  tabs in leading white space are refused
  (`line_laws.rs`).
- `src/parser/` — the syntax tree and its view (`ast.rs`), the grammar as
  step-bounded spec functions (`spec.rs`), the parser (`mod.rs`) and the
  source-to-program front end (`source.rs`).
- `src/semantic/` — the function table, what analysis decides (`spec.rs`),
  the analyzer, and its laws.
- `src/interpreter/` — values, errors, scoped environments, the big-step
  semantics (`spec.rs`), the operators (`ops.rs`), the interpreter and its
  laws (scope balance, read-after-write, short-circuiting, the step budget).
- `src/native/` — the registry of built-in functions and its builder.
- `src/repl.rs` — what the REPL does with each line and each input.
- `src/pipeline/`, `src/cli/`, `src/validation/`, `src/file_loader/` — the
  stages of a run, command-line parsing, and the checks on files.
- `app/main.rs` — the executable: reading files and standard input,
  printing, and the REPL loop.

Tokens are those of the lexer specification, plus `**` for powers
(binding tighter than `*`, `/` and `%`; a power that does not fit in 64
bits is the overflow error), the literal `nil`, and `{` `}` around an
indented block, which runs in a scope of its own. A block (or `if`) at the
top of a program gives the program the value of its last expression.

Programs run with a step budget of 2^64 - 1 steps per entry point;
`law_step_budget` shows that the budget changes no outcome except by
cutting a run short with the limit error.
