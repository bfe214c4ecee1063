//! Core of a compiler and virtual machine for a small expression-oriented
//! language whose compilation target is a graph of fire-and-forget signal
//! objects in a level-based runtime. The machine keeps every runtime value in
//! an append-only arena addressed by opaque keys, runs many logical execution
//! contexts under a deterministic depth-then-position scheduler, forks
//! contexts with deep-cloned register files at the points where conditional
//! code must become physically separate emission paths, and reports failures
//! through a closed runtime-error taxonomy that carries source areas and the
//! active call stack.

pub mod arena;
pub mod bytecode;
pub mod context;
pub mod display;
pub mod error;
pub mod ids;
pub mod ops;
pub mod scheduler;
pub mod sources;
pub mod value;
pub mod vm;
