//! Attribution engine for CI-driven authorship tracking.
//!
//! The crate has two independent cores.  The diff core computes, for two
//! revisions of a text file, the exact set of 1-indexed line numbers that are
//! net-new in the second revision, by composing a line-diff oracle with a
//! verified edit-script walk.  The CI core resolves, from provider metadata,
//! which commit is the effective rewrite target of a squashed or merged
//! change request, and plans the workspace materialization commands.  A thin
//! unverified shell performs the environment reads, the network call and the
//! subprocess invocations that the cores describe.

pub mod clone_target;
pub mod diff;
pub mod error;
pub mod gitlab;
pub mod text;
