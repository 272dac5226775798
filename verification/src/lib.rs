//! An engine for wrangling symbolic links.
//!
//! The engine decides and leaves the doing to its caller.  It works on
//! text and plain facts: the caller reads links and asks the filesystem what
//! the engine wants to know, and gets back plans, which are lists of
//! filesystem steps to perform.  The functions here are verified against
//! their contracts, which are stated over a model of paths as sequences of
//! characters; the few calls into other crates are marked as trusted where
//! they stand.
//!
//! - [`path`], [`normalized`], [`path_laws`]: the lexical path model, the
//!   normal form of a path, and its laws.
//! - [`relative`]: the relative path between two absolute locations.
//! - [`link`], [`filter`], [`walk`]: classified links, the predicates over
//!   them, and what a walk yields.
//! - [`transform`]: the operations on a link, each as a plan.
//! - [`mirror`], [`steps`], [`fs_model`]: mirroring a directory tree with
//!   links, the steps of a plan, and what the steps do.
//! - [`create`]: creating a new link.
//! - [`cli`]: the options of the command-line tools, as plain data.
//! - [`pattern`]: regular expressions over paths and targets.
//! - [`policy`], [`report`]: what to do about the errors of a run, and what
//!   a run tells the user.
//! - [`manpage`], [`text`]: folding the man pages of subcommands.

pub mod cli;
pub mod create;
pub mod filter;
pub mod fs_model;
pub mod link;
pub mod manpage;
pub mod mirror;
pub mod normalized;
pub mod path;
pub mod path_laws;
pub mod pattern;
pub mod policy;
pub mod relative;
pub mod report;
pub mod steps;
pub mod text;
pub mod transform;
pub mod walk;

pub use mirror::{create_hard_link, create_hard_link_tree, create_symlink_tree};
pub use normalized::tidy_path;
pub use report::{
    handle_operation, log_dangling_link, log_link, log_link_err, log_transformation,
};
