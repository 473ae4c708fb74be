//! Arithmetic logic unit virtual machine: data model, registers and instruction semantics.

pub mod num;
pub mod layout;
pub mod number;
pub mod bigint;
pub mod flags;
pub mod arithm;
pub mod cmp;
pub mod bitwise;
pub mod shift;
pub mod bytestr;
pub mod reg;
pub mod library;
pub mod regs;
pub mod isa;
pub mod exec;
pub mod exec_alu;
pub mod exec_bytes;
pub mod crypto;
pub mod exec_crypto;
pub mod alu64;
pub mod microcode;
pub mod ctrl;
pub mod bytearray;
pub mod op_types;
pub mod text;
pub mod instr;
pub mod laws;
pub mod codec;
pub mod hex;
pub mod cursor;
pub mod bytecode;
pub mod fields;
pub mod op_codes;
pub mod lib_id;

pub mod program;
pub mod decode;
pub mod op_laws;
