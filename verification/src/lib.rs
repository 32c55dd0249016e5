//! Back end of a small compiler toolchain: an intermediate representation
//! with an address-space-aware memory model, the allocators that assign
//! symbols and virtual registers within that model, and a bytecode virtual
//! machine that executes the intermediate representation to completion.

pub mod byteorder;
pub mod ir;
pub mod registers;
pub mod symbols;
pub mod vm;
