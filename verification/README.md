# irtools

A small compiler toolkit around a stack-based intermediate representation (IR), written in
Verus: every function carries a contract that the verifier proves.

## Modules

- `ir` — the IR: value and storable types, compound (struct) types, globals, instructions and
  value paths, translation units and functions, a validator that type-checks function bodies
  against the evaluation stack (compound types match when their whole definitions do), an
  evaluator that runs a validated function on given parameters with a step budget, and text
  forms of types and paths.
- `arm64` — ARM64 instructions with their 32 bit encodings, local and global symbols, and the
  encoding context that lays functions out and resolves branches to local labels.
- `java` — JVM class files: the constant pool, descriptors, attributes (code, stack maps, inner
  classes, local variable tables), fields, methods, instructions and their encodings, and the
  writer that produces the bytes of a class file; `java::opt` picks the shortest instruction
  for loads, stores, constants and conversions.
- `ir2arm64` — translation of IR functions and globals to ARM64 code and data, with functions
  that tell in advance whether a function or a global can be translated.
- `ir2java` — translation of IR units to class files: types, globals and signatures to
  descriptors and fields, function bodies to JVM code with stack map frames, and a whole unit to
  one class with its methods, nested classes and static initializer. The translation of a body
  is stated as a function on a model of the translation state (`ir2java::trans`), and the code
  that performs it is proved to follow that model step by step.
- `ir2wasm` — the linear memory layout of IR values and globals, and the numbering of functions
  in a WebAssembly module.
- `ir2x86` — the mapping of the evaluation stack onto x86 registers.
- `ir2triple` — symbol names of functions in ELF and Mach-O objects, and the layout of the text
  and data sections of an ARM64 object.
- `support` — comparison of strings, numbers in decimal, and `Debug` formatting of a string, the
  one call there into the standard library whose behaviour the proofs take on trust.

## Building and checking

The crate is verified with Verus; the tests under `tests/` run the compiled library. `app/`
holds what writes translated units to files: JVM class files, and ARM64 Mach-O objects
(which need the `ofile` crate).
