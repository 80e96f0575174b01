//! Declarative batch execution engine for a remote collaboration platform.
//!
//! A batch document describes a hierarchy of jobs, steps and commands to run
//! against a set of target repositories. This crate holds the verified core
//! of the engine: the data model, the immutable context chain threaded down
//! through the hierarchy, the planning of remote calls in declaration order,
//! and the collection of per-call outcomes back into a result tree that
//! mirrors the shape of the input document. Performing the remote calls
//! themselves (network I/O) is left to the embedding program.

pub mod command;
pub mod error;
pub mod octomate;
pub mod options;
pub mod properties;
