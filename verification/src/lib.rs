//! Fleet-wide TypeScript syntax validation, as a verified library.
//!
//! The library holds the logic of a concurrent fetch-clone-scan pipeline:
//! resolution of the work set with an archived/fork filter (`discovery`,
//! `repo`), isolated workspace bookkeeping (`workspace`), recursive
//! directory traversal bounded to the recognized source suffix (`walker`),
//! per-file parse validation through an external TypeScript grammar
//! (`parse`), per-repository and run-wide aggregation of outcomes
//! (`pipeline`), and the run's phase machine (`orchestrator`, `errors`).
//! Network, subprocess and filesystem work stays outside; the library is
//! handed plain values and decides everything about them.

pub mod discovery;
pub mod errors;
pub mod orchestrator;
pub mod parse;
pub mod pipeline;
pub mod repo;
pub mod walker;
pub mod workspace;
