//! The write-time validator, exercised directly and through `commit`.

use agent_linking::errors::{InvalidReason, LinkError, ValidateResult};
use agent_linking::keys::AgentKey;
use agent_linking::payload::sorted_agent_pair_bytes;
use agent_linking::records::{CompleteLinkInput, DirectLinkInput, IsSamePersonEntry, Signature};
use agent_linking::sigs::{AcceptedSignature, SignatureVerifier};
use agent_linking::store::LinkStore;
use agent_linking::validator::{validate, validate_is_same_person_entry, LinkTypes, RecordOp};

fn key(b: u8) -> AgentKey {
    AgentKey::from_raw(vec![b; 39]).unwrap()
}

fn sig(b: u8) -> Signature {
    Signature::from_raw(vec![b; 64])
}

/// A verifier endorsing both parties' signatures over the pair payload,
/// and the canonical entry those signatures attest.
fn valid_entry() -> (IsSamePersonEntry, SignatureVerifier) {
    let a = key(1);
    let b = key(2);
    let payload = sorted_agent_pair_bytes(&a, &b).unwrap();
    let mut v = SignatureVerifier::new();
    v.endorse(AcceptedSignature { signer: a.clone(), payload: payload.clone(), signature: sig(10) });
    v.endorse(AcceptedSignature { signer: b.clone(), payload, signature: sig(20) });
    let entry = IsSamePersonEntry {
        agent_a: a,
        signature_a: sig(10),
        agent_b: b,
        signature_b: sig(20),
        created_at: 7,
    };
    (entry, v)
}

#[test]
fn well_formed_entry_is_valid_for_either_author() {
    let (entry, v) = valid_entry();
    assert_eq!(validate_is_same_person_entry(&entry, &key(1), &v), ValidateResult::Valid);
    assert!(validate_is_same_person_entry(&entry, &key(2), &v).is_valid());
}

#[test]
fn equal_agents_are_rejected() {
    let (mut entry, v) = valid_entry();
    entry.agent_b = key(1);
    assert_eq!(
        validate_is_same_person_entry(&entry, &key(1), &v),
        ValidateResult::Invalid(InvalidReason::AgentsEqual)
    );
}

#[test]
fn non_canonical_orientation_is_rejected_despite_valid_signatures() {
    let (entry, v) = valid_entry();
    // Swap the pair: both signatures still verify over the same payload,
    // yet the record must be refused.
    let flipped = IsSamePersonEntry {
        agent_a: entry.agent_b.clone(),
        signature_a: entry.signature_b.clone(),
        agent_b: entry.agent_a.clone(),
        signature_b: entry.signature_a.clone(),
        created_at: entry.created_at,
    };
    assert_eq!(
        validate_is_same_person_entry(&flipped, &key(1), &v),
        ValidateResult::Invalid(InvalidReason::NotCanonicallyOrdered)
    );

    // Injected straight into the store, it is refused the same way.
    let mut store = LinkStore::new();
    assert_eq!(
        store.commit(flipped, &key(1), &v).unwrap_err(),
        LinkError::Invalid(InvalidReason::NotCanonicallyOrdered)
    );
    assert!(store.read_attestation(0).is_none());
}

#[test]
fn stranger_author_is_rejected() {
    let (entry, v) = valid_entry();
    assert_eq!(
        validate_is_same_person_entry(&entry, &key(9), &v),
        ValidateResult::Invalid(InvalidReason::AuthorNotParticipant)
    );
}

#[test]
fn unverifiable_signatures_are_rejected_each_by_name() {
    let (mut entry, v) = valid_entry();
    entry.signature_a = sig(99);
    assert_eq!(
        validate_is_same_person_entry(&entry, &key(1), &v),
        ValidateResult::Invalid(InvalidReason::SignatureAInvalid)
    );

    let (mut entry, v) = valid_entry();
    entry.signature_b = sig(99);
    assert_eq!(
        validate_is_same_person_entry(&entry, &key(1), &v),
        ValidateResult::Invalid(InvalidReason::SignatureBInvalid)
    );
}

#[test]
fn commit_accepts_what_the_validator_accepts() {
    let (entry, v) = valid_entry();
    let mut store = LinkStore::new();
    let address = store.commit(entry.clone(), &key(2), &v).unwrap();
    let (read_back, tombstoned) = store.read_attestation(address).unwrap();
    assert!(!tombstoned);
    assert_eq!(*read_back, entry);
}

#[test]
fn reason_messages_are_specific() {
    assert_eq!(
        InvalidReason::NotCanonicallyOrdered.message(),
        "agent_a must be lexicographically smaller than agent_b"
    );
    assert_eq!(
        InvalidReason::UnauthorizedPendingDeletion.message(),
        "Only the original author can delete a pending link request"
    );
}

#[test]
fn only_the_author_may_delete_a_pending_request() {
    let v = SignatureVerifier::new();
    let refused = RecordOp::DeleteLink {
        link_type: LinkTypes::PendingLinkRequest,
        author: key(3),
        original_author: key(1),
    };
    assert_eq!(
        validate(&refused, &v),
        ValidateResult::Invalid(InvalidReason::UnauthorizedPendingDeletion)
    );

    let allowed = RecordOp::DeleteLink {
        link_type: LinkTypes::PendingLinkRequest,
        author: key(1),
        original_author: key(1),
    };
    assert_eq!(validate(&allowed, &v), ValidateResult::Valid);

    // Deleting an attestation pointer is a revocation concern, not a
    // structural one.
    let revocation = RecordOp::DeleteLink {
        link_type: LinkTypes::AgentToIsSamePerson,
        author: key(3),
        original_author: key(1),
    };
    assert_eq!(validate(&revocation, &v), ValidateResult::Valid);
}

#[test]
fn stored_entries_go_through_the_full_check() {
    let (entry, v) = valid_entry();
    let op = RecordOp::StoreEntry { entry, author: key(2) };
    assert_eq!(validate(&op, &v), ValidateResult::Valid);

    let (mut entry, v) = valid_entry();
    entry.signature_b = sig(99);
    let op = RecordOp::StoreEntry { entry, author: key(2) };
    assert_eq!(
        validate(&op, &v),
        ValidateResult::Invalid(InvalidReason::SignatureBInvalid)
    );

    let ops = RecordOp::CreateLink { link_type: LinkTypes::AgentToIsSamePerson, author: key(1) };
    assert_eq!(validate(&ops, &v), ValidateResult::Valid);
    assert_eq!(validate(&RecordOp::OtherActivity, &v), ValidateResult::Valid);
}

#[test]
fn ceremony_and_direct_attestations_are_indistinguishable_to_the_validator() {
    let a = key(1);
    let b = key(2);
    let payload = sorted_agent_pair_bytes(&a, &b).unwrap();
    let mut v = SignatureVerifier::new();
    v.endorse(AcceptedSignature { signer: a.clone(), payload: payload.clone(), signature: sig(10) });
    v.endorse(AcceptedSignature { signer: b.clone(), payload, signature: sig(20) });

    // Ceremony path.
    let mut store = LinkStore::new();
    let code = store
        .initiate_link_request(&a, &b, sig(10), &vec![0; 8], 100)
        .unwrap();
    let input = CompleteLinkInput { pairing_code: code, initiator_agent: a.clone() };
    let ceremony_address = store.complete_link_request(&b, &input, sig(20), &v, 101).unwrap();
    let (ceremony_entry, _) = store.read_attestation(ceremony_address).unwrap();

    // Direct path.
    let mut direct_store = LinkStore::new();
    let input = DirectLinkInput { other_agent: a.clone(), other_signature: sig(10) };
    let direct_address = direct_store.create_direct_link(&b, &input, sig(20), &v, 101).unwrap();
    let (direct_entry, _) = direct_store.read_attestation(direct_address).unwrap();

    // Bit-identical shape, and both pass the validator under each author.
    assert_eq!(*ceremony_entry, *direct_entry);
    assert_eq!(validate_is_same_person_entry(ceremony_entry, &a, &v), ValidateResult::Valid);
    assert_eq!(validate_is_same_person_entry(direct_entry, &b, &v), ValidateResult::Valid);
}

#[test]
fn completion_with_unverifiable_local_signature_is_refused_at_commit() {
    let a = key(1);
    let b = key(2);
    let payload = sorted_agent_pair_bytes(&a, &b).unwrap();
    let mut v = SignatureVerifier::new();
    // Only the initiator's signature is endorsed.
    v.endorse(AcceptedSignature { signer: a.clone(), payload, signature: sig(10) });

    let mut store = LinkStore::new();
    let code = store
        .initiate_link_request(&a, &b, sig(10), &vec![0; 8], 100)
        .unwrap();
    let input = CompleteLinkInput { pairing_code: code, initiator_agent: a.clone() };
    // B is the larger key, so B's signature fills the second slot.
    assert_eq!(
        store.complete_link_request(&b, &input, sig(20), &v, 101).unwrap_err(),
        LinkError::Invalid(InvalidReason::SignatureBInvalid)
    );
    assert!(store.read_attestation(0).is_none());
}
