# flang

A compiler for a small language with compile-time evaluation: `comp`
bindings, function values and templates specialised by compile-time
arguments, integer types of fixed width, and lowering to LLVM. The compiler
proper is a library whose behaviour is stated in `requires`/`ensures`
contracts and proved with Verus; a thin executable drives it.

## Layout

- `src/` — the verified library.
  - `source`, `diagnostics`, `token`: source files, spans and diagnostics.
  - `tokenizer`: the lexical grammar as spec functions (`lex`), and a
    tokenizer proved to produce exactly its tokens or exactly its errors.
  - `ast`, `parser`: the syntax tree and a recursive-descent parser; parsed
    items cover the tokens in order, and binary operators group by
    precedence and to the left.
  - `symbols`, `types`, `comptime`, `hir`, `util`: symbol tables, scopes,
    types, compile-time values and the elaborated program.
  - `elaboration`: name resolution, type checking and compile-time
    evaluation, with the laws they keep (names resolve to symbols of that
    name, statements and expressions are typed against their context,
    the arithmetic on two compile-time values is exact or reported, and an
    expression whose literals and names have known values evaluates to the
    value they give; call frames are restored).
  - `codegen`, `lowering`: the plan of LLVM instructions for an elaborated
    program; every planned block ends with its only terminator, literals
    become their bit patterns, signed or unsigned instructions follow the
    operands' types, and a statement ends its block exactly when it returns
    on every path.
  - `imports`, `loader`: discovery of `@import`s and the state machine that
    loads each imported file once.
  - `driver`: tokenize, parse and elaborate one file.
- `tests/` — tests of the library on concrete programs.
- `app/` — the executable: file and process I/O, printing of diagnostics,
  building the LLVM module from the plan with `inkwell`, and linking with
  `clang`.
