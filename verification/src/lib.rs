//! Trust-and-resolution core of a script runner that may pull in
//! natively-compiled extension modules.
//!
//! The library decides, before any native code executes, whether every
//! native extension reachable from an entry script has been explicitly
//! approved by the operator.  Approval is keyed by a content-addressed
//! hash; which directories may declare native extensions and which
//! aliases resolve to which locations is governed by a hierarchical,
//! override-aware configuration system.
//!
//! Filesystem reads, JSON decoding and the script engine live outside
//! this crate; the logic here works on plain values handed in by the
//! surrounding layer.

pub mod assoc;
pub mod bless;
pub mod cli;
pub mod collect;
pub mod context;
pub mod errors;
pub mod gate;
pub mod luaurc;
pub mod ludorc;
pub mod paths;
pub mod resolve;
