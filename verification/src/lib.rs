//! Object protocol layer of a dynamic-language runtime.
//!
//! Every runtime value is an object with a class; classes carry an ordered
//! ancestor sequence (method resolution order) and per-protocol hook slots.
//! The engines in this crate give objects class-customizable behaviour for
//! attribute access, rich comparison, type-relationship queries, item access
//! and hashing, with the precedence rules of a Python-like object model:
//! data descriptors shadow instance storage, reflected comparison operands
//! are tried first for strict subclasses, mapping access precedes sequence
//! access, and every re-entrant path is bounded by an explicit depth guard.

pub mod attr;
pub mod cmp;
pub mod data;
pub mod hash;
pub mod item;
pub mod laws;
pub mod misc;
pub mod object;
pub mod traceback;
pub mod typerel;
pub mod vm;
