# brain_massage

A compiler for BrainMassage, a readable notation for Brainf*ck programs, with
its front end and code generation verified in Verus.

- `src/lex`: source text to tokens. Each token kind is a regular expression
  tried at the current position; the search itself is done by the `regex`
  crate behind two trusted wrappers (`src/search.rs`).
- `src/parse`: tokens to a syntax tree, with a model of the tree as sequences.
- `src/sem`: semantic analysis: which cells the program names, where the head
  position is known, and the rewriting of `vhead` into fixed cells there.
- `src/transpile`: translation of an analyzed tree into Brainf*ck, the table
  of multiplication factors for number literals, and the laws that every
  translation is well bracketed and that short head moves stay on the tape.
- `src/compile`: compilation into LLVM IR, as the sequence of builder steps
  that a driver replays, with the law that every step reads only values and
  blocks made before it.
- `src/output.rs`: the default name of the output file.
- `app/`: the `bmsgc` command line: file I/O, the LLVM builder (inkwell), the
  optimization passes and linking.
