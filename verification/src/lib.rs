//! A host-aware configuration interpreter for a declarative machine-setup
//! tool.  A configuration holds a flat variable table, a global pool of named
//! shell tasks, and per-host task and link lists.  This crate contains the
//! resolution engine: variable interpolation in strings, resolution of task
//! references against host-local and global pools, and the planning of
//! filesystem link operations.  All decisions are made here, under verified
//! contracts; an unverified shell around the crate performs the actual
//! process spawning and filesystem calls that the resulting plans call for.

pub mod cmd;
pub mod config;
pub mod fs;
pub mod opts;
