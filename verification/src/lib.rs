//! Workspace materialization engine for a multi-package project generator.
//!
//! The library turns a tree of text templates plus a rendering context into a
//! plan of concrete file writes, selecting one physical variant per logical
//! file by package manager, records compensating cleanup actions, and
//! aggregates the outcomes of per-workspace dependency installs.

use vstd::prelude::*;

pub mod cleanup;
pub mod engine;
pub mod install;
pub mod logger;
pub mod manifest;
pub mod materialize;
pub mod scrub;
pub mod service;
pub mod text;
pub mod variant;
pub mod walk;
pub mod workspace;

verus! {

/// A fatal error: any of these aborts the whole command and triggers cleanup.
#[derive(Debug)]
pub enum FatalError {
    /// Unknown service identifier, unsupported package manager, or a
    /// malformed or missing manifest field.
    Config(String),
    /// A template failed to evaluate against the context.
    Render(String),
    /// An I/O failure reported while walking or reading the template tree.
    Filesystem(String),
}

impl FatalError {
    /// The diagnostic text carried by the error.
    pub fn message(&self) -> (r: &str)
        ensures
            r@ == self.text(),
    {
        match self {
            FatalError::Config(m) => m.as_str(),
            FatalError::Render(m) => m.as_str(),
            FatalError::Filesystem(m) => m.as_str(),
        }
    }

    /// The diagnostic text, as a sequence of characters.
    pub open spec fn text(&self) -> Seq<char> {
        match self {
            FatalError::Config(m) => m@,
            FatalError::Render(m) => m@,
            FatalError::Filesystem(m) => m@,
        }
    }
}

} // verus!
