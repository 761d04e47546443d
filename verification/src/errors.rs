use vstd::prelude::*;

verus! {

/// Why text or bytes at the domain boundary could not be turned into an
/// engine-native value. Always a caller-input problem, never an engine-state
/// problem.
#[derive(Clone, Copy, PartialEq, Eq, Structural, Debug)]
pub enum TranslationError {
    /// The text is not a valid instance of the identifier kind it was
    /// offered for (for example malformed public-key hex).
    ParseError,
    /// A fixed-length byte identifier was not exactly 32 bytes long.
    InvalidLength,
}

/// Why a build plan could not be turned into a node handle. Surfaced before
/// any engine resources are allocated; recoverable by retrying with a
/// corrected plan.
#[derive(Clone, PartialEq, Eq, Debug)]
pub enum ConfigError {
    /// The seed-bytes entropy source was not exactly 32 bytes long.
    InvalidSeedBytes,
    /// The engine could not construct the node; carries the reason.
    BuildError(String),
}

/// Why a handle operation failed.
#[derive(Clone, PartialEq, Eq, Debug)]
pub enum NodeError {
    /// An operation other than `start` was invoked while the handle was not
    /// in the `Running` state.
    NotRunning,
    /// `start` was invoked while the handle was already `Running`.
    AlreadyRunning,
    /// `start` was invoked after `stop`; a stopped handle is terminal.
    Stopped,
    /// The engine reported the failure of an individual call; carries a
    /// human-readable reason. Never corrupts handle state.
    Operation(String),
    /// Caller input could not be translated into engine-native form.
    Translation(TranslationError),
}

} // verus!
