# Hematite

A compiler for int8 neural networks: it reads a TFLite model file, decides how
the operators are fused, laid out and placed in memory, and emits the kernel
calls with all of their integer parameters computed beforehand.

- `src/` is the library. Every function has a contract that Verus proves; the
  proof functions named `law_*` state what holds across functions.
- `tests/` runs the library on concrete models and numbers.
- `app/` is the macro side: it reads the file and renders an emitted program as
  Rust code.

Two functions of the library call code that is not verified: `parse_literal` in
`src/attribute.rs` (syn) and `text_from_utf8` in `src/flatbuffer.rs` (the
standard library). Their doc comments say what is taken on trust.

The library holds no floating-point numbers: a scale is the bit pattern of a
binary32 number, and `src/ieee.rs` computes on the patterns with the rounding
that IEEE 754 prescribes.
