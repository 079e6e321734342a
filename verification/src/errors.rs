//! The protocol's error taxonomy. Every failure is terminal and reported to
//! the caller; nothing is retried internally.

use vstd::prelude::*;

verus! {

/// Why the validator rejected a record. Exactly one reason is reported per
/// rejection: the first failing check, although every check is carried out.
#[derive(Clone, Copy, Debug, PartialEq, Eq, Structural)]
pub enum InvalidReason {
    /// The two agents of an attestation are the same key.
    AgentsEqual,
    /// The attestation is not canonically oriented (`agent_a` is not the
    /// smaller key).
    NotCanonicallyOrdered,
    /// The record's author is neither of the two attested agents.
    AuthorNotParticipant,
    /// `signature_a` does not verify against `agent_a` over the pair payload.
    SignatureAInvalid,
    /// `signature_b` does not verify against `agent_b` over the pair payload.
    SignatureBInvalid,
    /// Someone other than its original author tried to delete a pending
    /// link request.
    UnauthorizedPendingDeletion,
}

impl InvalidReason {
    /// A human-readable account of the rejection.
    pub fn message(&self) -> String {
        match self {
            InvalidReason::AgentsEqual => String::from_str(
                "agent_a and agent_b must be different agents",
            ),
            InvalidReason::NotCanonicallyOrdered => String::from_str(
                "agent_a must be lexicographically smaller than agent_b",
            ),
            InvalidReason::AuthorNotParticipant => String::from_str(
                "Author must be one of the two agents in the entry",
            ),
            InvalidReason::SignatureAInvalid => String::from_str(
                "signature_a does not verify against agent_a",
            ),
            InvalidReason::SignatureBInvalid => String::from_str(
                "signature_b does not verify against agent_b",
            ),
            InvalidReason::UnauthorizedPendingDeletion => String::from_str(
                "Only the original author can delete a pending link request",
            ),
        }
    }
}

/// Outcome of validating a single record write.
#[derive(Clone, Copy, Debug, PartialEq, Eq, Structural)]
pub enum ValidateResult {
    /// Every check passed.
    Valid,
    /// Some check failed; the reason names the first failing one.
    Invalid(InvalidReason),
}

impl ValidateResult {
    /// Whether the record was accepted.
    pub fn is_valid(&self) -> (r: bool)
        ensures
            r == (*self == ValidateResult::Valid),
    {
        match self {
            ValidateResult::Valid => true,
            ValidateResult::Invalid(_) => false,
        }
    }
}

/// Every way a protocol operation can fail.
#[derive(Clone, Copy, Debug, PartialEq, Eq, Structural)]
pub enum LinkError {
    /// An agent tried to link its own key to itself.
    SelfLinkForbidden,
    /// The matched pending request's expiry had already passed.
    PairingExpired,
    /// No pending request matched the given pairing code and initiator.
    NoMatchingRequest,
    /// A presented signature does not verify over the pair payload.
    InvalidSignature,
    /// A record failed structural validation at write time.
    Invalid(InvalidReason),
    /// An identity key is not a well-formed raw key encoding.
    MalformedKey,
    /// The referenced attestation does not exist.
    NotFound,
    /// The caller is not a participant of the attestation it tried to revoke.
    Unauthorized,
}

} // verus!
