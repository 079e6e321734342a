//! The validator: a pure, idempotent re-check of every invariant of an
//! attestation record, run on every write the substrate relays, independent
//! of which code path produced the record and of who relays it.
//!
//! Every check is carried out — none is skipped once an earlier one fails —
//! and the reported reason is the first failing check, so a failure never
//! hides which invariant broke.

use vstd::prelude::*;
use crate::errors::{InvalidReason, ValidateResult};
use crate::keys::{AgentKey, lex_lt};
use crate::payload::{build_payload, spec_payload};
use crate::records::IsSamePersonEntry;
use crate::sigs::SignatureVerifier;

verus! {

/// What validating an attestation must find, check by check:
/// the two agents differ, the orientation is canonical, the author is a
/// participant, and each signature verifies against its owner over the
/// canonical pair payload. The result carries the first failing check.
pub open spec fn spec_validate_entry(
    entry: IsSamePersonEntry,
    author: AgentKey,
    v: SignatureVerifier,
) -> ValidateResult {
    let payload = spec_payload(entry.agent_a@, entry.agent_b@);
    if entry.agent_a@ == entry.agent_b@ {
        ValidateResult::Invalid(InvalidReason::AgentsEqual)
    } else if !lex_lt(entry.agent_a@, entry.agent_b@) {
        ValidateResult::Invalid(InvalidReason::NotCanonicallyOrdered)
    } else if author@ != entry.agent_a@ && author@ != entry.agent_b@ {
        ValidateResult::Invalid(InvalidReason::AuthorNotParticipant)
    } else if !v.spec_accepts(entry.agent_a@, payload, entry.signature_a@) {
        ValidateResult::Invalid(InvalidReason::SignatureAInvalid)
    } else if !v.spec_accepts(entry.agent_b@, payload, entry.signature_b@) {
        ValidateResult::Invalid(InvalidReason::SignatureBInvalid)
    } else {
        ValidateResult::Valid
    }
}

/// Validates an attestation record against its author.
pub fn validate_is_same_person_entry(
    entry: &IsSamePersonEntry,
    author: &AgentKey,
    v: &SignatureVerifier,
) -> (r: ValidateResult)
    ensures
        r == spec_validate_entry(*entry, *author, *v),
{
    let payload = build_payload(&entry.agent_a, &entry.agent_b);
    // All five checks run unconditionally; only then is the verdict formed.
    let agents_differ = !entry.agent_a.key_eq(&entry.agent_b);
    let canonical = entry.agent_a.key_lt(&entry.agent_b);
    let author_is_participant = author.key_eq(&entry.agent_a) || author.key_eq(&entry.agent_b);
    let sig_a_ok = v.verify(&entry.agent_a, &payload, &entry.signature_a);
    let sig_b_ok = v.verify(&entry.agent_b, &payload, &entry.signature_b);
    if !agents_differ {
        ValidateResult::Invalid(InvalidReason::AgentsEqual)
    } else if !canonical {
        ValidateResult::Invalid(InvalidReason::NotCanonicallyOrdered)
    } else if !author_is_participant {
        ValidateResult::Invalid(InvalidReason::AuthorNotParticipant)
    } else if !sig_a_ok {
        ValidateResult::Invalid(InvalidReason::SignatureAInvalid)
    } else if !sig_b_ok {
        ValidateResult::Invalid(InvalidReason::SignatureBInvalid)
    } else {
        ValidateResult::Valid
    }
}

/// The kinds of record the substrate can relay for validation, as the
/// protocol distinguishes them.
#[derive(Clone, Copy, Debug, PartialEq, Eq, Structural)]
pub enum LinkTypes {
    /// A one-way discovery pointer from a participant's key to an
    /// attestation.
    AgentToIsSamePerson,
    /// A pending link request filed under the target's key.
    PendingLinkRequest,
}

/// One write relayed by the substrate.
#[derive(Debug)]
pub enum RecordOp {
    /// An attestation record is being stored, freshly or as an update.
    StoreEntry { entry: IsSamePersonEntry, author: AgentKey },
    /// An index pointer or a pending link request is being created.
    CreateLink { link_type: LinkTypes, author: AgentKey },
    /// A pointer or pending request is being deleted. `original_author`
    /// wrote the record being deleted.
    DeleteLink { link_type: LinkTypes, author: AgentKey, original_author: AgentKey },
    /// Any other activity; nothing of this protocol's to check.
    OtherActivity,
}

/// What validating one relayed write must find. Attestation stores get the
/// full five-check validation; deleting a pending link request is only open
/// to its original author, so a third party cannot erase someone else's
/// in-flight ceremony; attestation deletions (revocations) are a trust
/// decision, not a structural one, and are not judged here.
pub open spec fn spec_validate(op: RecordOp, v: SignatureVerifier) -> ValidateResult {
    match op {
        RecordOp::StoreEntry { entry, author } => spec_validate_entry(entry, author, v),
        RecordOp::CreateLink { .. } => ValidateResult::Valid,
        RecordOp::DeleteLink { link_type, author, original_author } => {
            if link_type == LinkTypes::PendingLinkRequest && author@ != original_author@ {
                ValidateResult::Invalid(InvalidReason::UnauthorizedPendingDeletion)
            } else {
                ValidateResult::Valid
            }
        },
        RecordOp::OtherActivity => ValidateResult::Valid,
    }
}

/// Validates one write relayed by the substrate.
pub fn validate(op: &RecordOp, v: &SignatureVerifier) -> (r: ValidateResult)
    ensures
        r == spec_validate(*op, *v),
{
    match op {
        RecordOp::StoreEntry { entry, author } => validate_is_same_person_entry(entry, author, v),
        RecordOp::CreateLink { .. } => ValidateResult::Valid,
        RecordOp::DeleteLink { link_type, author, original_author } => {
            if *link_type == LinkTypes::PendingLinkRequest && !author.key_eq(original_author) {
                ValidateResult::Invalid(InvalidReason::UnauthorizedPendingDeletion)
            } else {
                ValidateResult::Valid
            }
        },
        RecordOp::OtherActivity => ValidateResult::Valid,
    }
}

} // verus!
