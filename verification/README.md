# codegen_c

A code generator that turns Rust's intermediate representation into C, verified
with Verus. The library decides what C code stands for each type, constant,
static, function, instruction and intrinsic, and its functions are proved to
produce exactly the code that their contracts state. What is taken from the
standard library without proof is declared in `text`, `write` and `backend`.

- `src/` is the library. `types`, `values`, `module` and `c_ast` hold the C
  program under construction; `context` brings them together; `layout` describes
  Rust types and calling conventions as plain data, and `type_of` maps them to C
  types. `declare`, `consts`, `memory` and `statics` produce declarations and
  data. `builder` emits statements, with `control`, `arith`, `casts`, `memops`,
  `atomics`, `calls`, `params`, `bits`, `simd` and `intrinsic` for the operations.
  `render` writes the C text, `order` shows that data and definitions come after
  what they name, and `write` and `backend` hold what is decided about files,
  compiler flags, features and link-time optimisation.
- `tests/` runs the library on concrete programs.
- `app/` is the codegen backend itself: it implements the compiler's traits by
  calls into the library, writes files and runs the C compiler. It needs the
  compiler's own crates (`rustc_private`).
- `extras/preamble.h` is the C header that generated code relies on.
