use vstd::prelude::*;

verus! {

/// The error taxonomy of the federation core.
///
/// `Unreachable` is the only transient error: it marks a network failure or
/// timeout and is eligible for caller-level retry. Every other variant is
/// terminal for the operation that produced it.
#[derive(Clone, Copy, Debug, PartialEq, Eq, Structural)]
pub enum FedError {
    /// The identifier does not name any entity, locally or remotely.
    NotFound,
    /// The identifier names an entity of a different kind than requested.
    KindMismatch,
    /// The payload violates the expected schema; never retried.
    Malformed,
    /// Network failure or timeout; eligible for bounded retry by the caller.
    Unreachable,
    /// The identifier's host is on the deny-list; never retried.
    Blocked,
    /// The message's signature does not match the actor's key.
    SignatureInvalid,
    /// The activity's verb kind is outside the supported set.
    UnsupportedKind,
    /// The claimed actor could not be resolved.
    ActorUnresolvable,
    /// A remote inbox rejected the delivery permanently.
    DeliveryRejected,
    /// Delivery retries were exhausted without success.
    DeliveryExhausted,
}

impl FedError {
    /// Whether the error is transient, i.e. the operation may be retried.
    pub fn is_transient(&self) -> (r: bool)
        ensures
            r == (*self == FedError::Unreachable),
    {
        match self {
            FedError::Unreachable => true,
            _ => false,
        }
    }
}

} // verus!
