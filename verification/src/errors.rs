//! The error taxonomy of the trust-and-resolution core.
//!
//! Every error carries the offending path or name as a plain value;
//! the surrounding layer renders messages from those fields.  All of
//! them are deterministic conditions, never retried.

use vstd::prelude::*;

verus! {

/// A declaration file or the trust store is malformed.
#[derive(Debug, Clone, PartialEq, Eq)]
pub enum ConfigError {
    /// The user trust store carries a version this library does not read.
    UnsupportedStoreVersion { version: u32 },
    /// The workspace declaration at `dir` carries a version this
    /// library does not read.
    UnsupportedVersion { dir: String, version: u32 },
    /// One alias declaration binds the same alias twice.
    DuplicateAlias { dir: String, alias: String },
    /// An ancestor already declares a native extension, and the
    /// declaration at `dir` declares another.
    ConflictingNatives { dir: String },
}

/// Ghost mirror of `ConfigError`, over character sequences.
pub ghost enum ConfigIssue {
    UnsupportedStoreVersion { version: int },
    UnsupportedVersion { dir: Seq<char>, version: int },
    DuplicateAlias { dir: Seq<char>, alias: Seq<char> },
    ConflictingNatives { dir: Seq<char> },
}

impl ConfigError {
    pub open spec fn model(self) -> ConfigIssue {
        match self {
            ConfigError::UnsupportedStoreVersion { version } => ConfigIssue::UnsupportedStoreVersion {
                version: version as int,
            },
            ConfigError::UnsupportedVersion { dir, version } => ConfigIssue::UnsupportedVersion {
                dir: dir@,
                version: version as int,
            },
            ConfigError::DuplicateAlias { dir, alias } => ConfigIssue::DuplicateAlias {
                dir: dir@,
                alias: alias@,
            },
            ConfigError::ConflictingNatives { dir } => ConfigIssue::ConflictingNatives { dir: dir@ },
        }
    }
}

/// A module specifier cannot be resolved to a directory.
#[derive(Debug, Clone, PartialEq, Eq)]
pub enum ResolveError {
    /// The specifier is empty.
    EmptySpecifier,
    /// The specifier is root-absolute or drive-absolute; every
    /// reference must stay workspace-relative.
    AbsoluteSpecifier,
    /// The first segment is no marker and carries no alias sigil.
    MissingPrefix,
    /// The specifier is not valid where the referencing script has no
    /// containing directory, or that directory no parent.
    NoParent,
    /// The named alias is not bound anywhere along the ancestor chain.
    UndefinedAlias { alias: String },
}

/// Ghost mirror of `ResolveError`, over character sequences.
pub ghost enum ResolveIssue {
    EmptySpecifier,
    AbsoluteSpecifier,
    MissingPrefix,
    NoParent,
    UndefinedAlias { alias: Seq<char> },
}

impl ResolveError {
    pub open spec fn model(self) -> ResolveIssue {
        match self {
            ResolveError::EmptySpecifier => ResolveIssue::EmptySpecifier,
            ResolveError::AbsoluteSpecifier => ResolveIssue::AbsoluteSpecifier,
            ResolveError::MissingPrefix => ResolveIssue::MissingPrefix,
            ResolveError::NoParent => ResolveIssue::NoParent,
            ResolveError::UndefinedAlias { alias } => ResolveIssue::UndefinedAlias { alias: alias@ },
        }
    }
}

/// The transitive collection cannot be completed; partial trust
/// closures never reach a verdict.
#[derive(Debug, Clone, PartialEq, Eq)]
pub enum CollectError {
    /// A script path has no containing directory.
    NoWorkspace { script: String },
    /// A native-granting alias of the script at `script` does not resolve.
    Resolution { script: String, alias: String, error: ResolveError },
    /// The directory an alias resolves to holds no recognized script.
    ScriptNotFound { script: String, alias: String, dir: String },
}

/// Ghost mirror of `CollectError`, over character sequences.
pub ghost enum CollectIssue {
    NoWorkspace { script: Seq<char> },
    Resolution { script: Seq<char>, alias: Seq<char>, error: ResolveIssue },
    ScriptNotFound { script: Seq<char>, alias: Seq<char>, dir: Seq<char> },
}

impl CollectError {
    pub open spec fn model(self) -> CollectIssue {
        match self {
            CollectError::NoWorkspace { script } => CollectIssue::NoWorkspace { script: script@ },
            CollectError::Resolution { script, alias, error } => CollectIssue::Resolution {
                script: script@,
                alias: alias@,
                error: error.model(),
            },
            CollectError::ScriptNotFound { script, alias, dir } => CollectIssue::ScriptNotFound {
                script: script@,
                alias: alias@,
                dir: dir@,
            },
        }
    }
}

} // verus!
