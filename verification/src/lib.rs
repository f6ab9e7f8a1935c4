//! A CHIP-8 virtual machine core: opcode decoding into a typed instruction
//! model, the execution semantics of each instruction family, a memoized
//! decode cache with self-modifying-code invalidation, and the three-dialect
//! quirks model. Rendering, input collection and the outer timing loop are
//! left to the surrounding application.

pub mod instruction;
pub mod vm;
