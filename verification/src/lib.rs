//! A minimal native-code backend for 64-bit little-endian Linux.
//!
//! The library consumes a small typed intermediate representation (functions
//! made of syscall and return statements over integer and string constants)
//! together with a symbol table, and produces the bytes of a runnable ELF64
//! executable: no external assembler or linker is involved.
//!
//! The pipeline, leaf to root:
//! - [`ir`]: a fixed pool of 16 integer registers managed as a bitmask;
//! - [`x86_64_asm`]: byte-exact encodings of the handful of x86-64
//!   instructions the backend emits;
//! - [`optimizer`]: turns a stream of abstract instructions into machine
//!   code, tracking label addresses and patching deferred relocations;
//! - [`elf`]: assembles segments into a minimal ELF64 executable image;
//! - [`ir_gen`]: walks the IR, allocates registers honouring the Linux
//!   syscall ABI, and drives the lower layers to the finished image.
//!
//! All file and wire-format concerns (reading the IR, writing the output
//! file) live outside this crate; the library maps plain input values to the
//! exact output bytes, and every step of that mapping is specified and
//! verified.

pub mod codegen;
pub mod data;
pub mod elf;
pub mod error;
pub mod ir;
pub mod ir_gen;
pub mod optimizer;
pub mod program;
pub mod x86_64_asm;
