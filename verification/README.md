# aluvm

A verified library for an arithmetic-logic-unit virtual machine: its numbers and byte
strings, its registers, the execution of each instruction, the bytecode of instructions and
programs, and libraries of code.

- `src/` is the library, written in Verus. Every function carries a contract; the public proof
  functions named `law_*` state properties that span several functions (values read back after
  they are written, operations undone by their inverse, and the like).
- `tests/` runs the library on concrete values.
- `app/` holds what the verifier does not take: bfloat16 floating-point arithmetic through the
  `half` crate.
