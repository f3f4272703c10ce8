//! An in-process function interception engine, modeled and verified.
//!
//! Given the address of a function and the address of a replacement with the
//! same calling convention, the engine computes the minimal branch/jump byte
//! sequence that redirects control flow to the replacement, models the
//! protected-write protocol that applies such a patch to executable memory
//! (backup capture before write, write, restore), and provides the reversible
//! hook lifecycle that lets a hook temporarily undo its own patch to call the
//! original function.
//!
//! The actual writes to executable memory, the memory-permission primitive,
//! the instruction-cache invalidation and the optional platform patch-writer
//! are outside collaborators that an embedder drives; this crate holds the
//! patch encodings, the byte-level protocol and its proofs.

pub mod arch;
pub mod applier;
pub mod decode;
pub mod lifecycle;
pub mod patch;
