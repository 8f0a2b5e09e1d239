//! How the agent may act on its own (its mode), and the provider hook that
//! is told when a session's mode changes.
use vstd::prelude::*;

verus! {

/// How much the agent may do without asking.
#[derive(Debug, Clone, Copy, PartialEq, Eq, Structural)]
pub enum GooseMode {
    /// Acts without asking.
    Auto,
    /// Asks before every tool call.
    Approve,
    /// Asks before tool calls that may change something.
    SmartApprove,
    /// Only talks; runs no tools.
    Chat,
}

impl Default for GooseMode {
    fn default() -> (m: Self)
        ensures
            m == GooseMode::Auto,
    {
        GooseMode::Auto
    }
}

/// Why a provider could not serve a request.
#[derive(Debug, Clone)]
pub enum ProviderError {
    Authentication(String),
    ContextLengthExceeded(String),
    RateLimitExceeded(String),
    ServerError(String),
    RequestFailed(String),
    ExecutionError(String),
    UsageError(String),
}

/// A model provider that can be told the mode of a session. Providers that
/// have nothing to adjust keep the default, which accepts every mode.
pub trait GooseProvider {
    fn update_mode(&self, session_id: &str, mode: GooseMode) -> (r: Result<(), ProviderError>)
        default_ensures
            r is Ok,
    {
        Ok(())
    }
}

} // verus!
