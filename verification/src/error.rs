use vstd::prelude::*;

verus! {

/// Failure taxonomy of the wallet core.
///
/// `User`: bad caller-supplied input (for example a malformed destination
/// address), surfaced verbatim to the caller for correction and never retried
/// automatically.
/// `Retriable`: transient node, network or contract-call failures; callers may
/// retry with backoff.
/// `Fatal`: internal invariant violations (chain-id mismatch, ciphertext that
/// fails authentication, malformed stored data); these abort the enclosing
/// operation and must not be downgraded to `Retriable`.
#[derive(Clone, Debug)]
pub enum Error {
    User { explanation: String },
    Retriable { error: String },
    Fatal { error: String },
}

impl Error {
    /// The human-readable text carried by the error.
    pub fn message(&self) -> (r: String)
        ensures
            r@ == match self {
                Error::User { explanation } => explanation@,
                Error::Retriable { error } => error@,
                Error::Fatal { error } => error@,
            },
    {
        match self {
            Error::User { explanation } => explanation.clone(),
            Error::Retriable { error } => error.clone(),
            Error::Fatal { error } => error.clone(),
        }
    }

    /// True exactly for the `User` classification.
    pub fn is_user(&self) -> (r: bool)
        ensures
            r == (self is User),
    {
        matches!(self, Error::User { .. })
    }

    /// True exactly for the `Retriable` classification.
    pub fn is_retriable(&self) -> (r: bool)
        ensures
            r == (self is Retriable),
    {
        matches!(self, Error::Retriable { .. })
    }

    /// True exactly for the `Fatal` classification.
    pub fn is_fatal(&self) -> (r: bool)
        ensures
            r == (self is Fatal),
    {
        matches!(self, Error::Fatal { .. })
    }
}

} // verus!
