# Strontium

A register-based bytecode virtual machine with typed registers and multimethod dispatch,
whose core is proved correct with Verus.

## Layout

- `src/machine/register.rs`: register values, their byte encoding, and the register file
  (kept sorted by name), with allocation, snapshots of the numbered registers and restore.
- `src/machine/bytecode/`: decoding (`decode.rs`, stated against `parse_at`), encoding
  (`encode.rs`), the proof that decoding an encoded instruction gives it back
  (`roundtrip.rs`), and the program container with its metadata.
- `src/machine/arith.rs`: integer arithmetic and comparisons of the `CALCULATE` and
  `COMPARE` instructions.
- `src/machine/dispatch.rs`: dispatch patterns and the multimethod table, with the proof
  that dispatch picks the earliest registered of the matching variants of highest
  precedence.
- `src/repl.rs`: what the prompt makes of a line (`:registers`, or hexadecimal bytecode).
- `src/machine/step.rs`: the meaning of one execution step over the machine's state;
  `Strontium::execute` (in `src/machine/mod.rs`) and the executors in
  `src/machine/instruction/executors.rs` are proved to follow it.
- `src/machine/memory/` and `src/memory/`: byte and bit memories with their bitwise
  operations.
- `app/`: the run loop, which performs what a step hands to the embedder (printing,
  floating-point arithmetic), value display, the serialised program file and the prompt's
  input and output.
