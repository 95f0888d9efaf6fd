# kaleipl

A compiler for a small Kaleidoscope-like language with integers, doubles,
tuples, lists, `var` bindings, `for` loops and user-defined operators.

- `src/` is the front end, proved with Verus: the lexer (`lexer/`), the
  recursive-descent parser with its precedence table (`parser/`), the type
  checker with its symbol table (`semantics/`), and `frontend::analyze`, which
  runs the three on one input. Each stage is specified by a model written as
  spec functions (`scanner::spec_tokenize`, `grammar::parse_program_s`,
  `typing::tc_program`), and each executable function is proved to compute
  exactly what its model gives.
- `app/` is the read-eval-print loop: code generation with LLVM through
  inkwell, the ORC JIT that runs each top-level expression, the runtime
  functions that compiled code calls, and the coloured error messages.
- `tests/` runs the library on concrete inputs.
