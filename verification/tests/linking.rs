//! End-to-end exercises of the linking protocol over the modelled store.

use agent_linking::codes::generate_pairing_code;
use agent_linking::errors::LinkError;
use agent_linking::keys::AgentKey;
use agent_linking::payload::sorted_agent_pair_bytes;
use agent_linking::records::{AgentPair, CompleteLinkInput, DirectLinkInput, Signature};
use agent_linking::sigs::{AcceptedSignature, SignatureVerifier};
use agent_linking::store::LinkStore;

fn key(b: u8) -> AgentKey {
    AgentKey::from_raw(vec![b; 39]).unwrap()
}

fn sig(b: u8) -> Signature {
    Signature::from_raw(vec![b; 64])
}

fn pair_payload(a: &AgentKey, b: &AgentKey) -> Vec<u8> {
    sorted_agent_pair_bytes(a, b).unwrap()
}

/// A verifier that accepts `signature` as `signer`'s signature over the
/// canonical payload of the pair.
fn endorse(v: &mut SignatureVerifier, signer: &AgentKey, a: &AgentKey, b: &AgentKey, signature: &Signature) {
    v.endorse(AcceptedSignature {
        signer: signer.clone(),
        payload: pair_payload(a, b),
        signature: signature.clone(),
    });
}

#[test]
fn payload_is_order_independent() {
    let a = key(1);
    let b = key(2);
    let ab = pair_payload(&a, &b);
    let ba = pair_payload(&b, &a);
    assert_eq!(ab, ba);
    let mut expected = vec![1u8; 39];
    expected.extend(vec![2u8; 39]);
    assert_eq!(ab, expected);
    assert_eq!(ab.len(), 78);
}

#[test]
fn malformed_key_is_rejected() {
    assert_eq!(AgentKey::from_raw(vec![0u8; 5]).unwrap_err(), LinkError::MalformedKey);
    assert_eq!(AgentKey::from_raw(vec![0u8; 40]).unwrap_err(), LinkError::MalformedKey);
    assert!(AgentKey::from_raw(vec![0u8; 39]).is_ok());
}

#[test]
fn pairing_code_format() {
    let code = generate_pairing_code(&vec![0, 1, 2, 3, 4, 5, 6, 7]);
    assert_eq!(code, "ABCD-EFGH");
}

#[test]
fn pairing_code_wraps_modulo_alphabet() {
    let code = generate_pairing_code(&vec![255u8; 8]);
    assert_eq!(code, "9999-9999");
    let code = generate_pairing_code(&vec![32, 33, 34, 35, 63, 64, 65, 66]);
    assert_eq!(code, "ABCD-9ABC");
}

#[test]
fn ceremony_happy_path_links_both_ways() {
    let a = key(1);
    let b = key(2);
    let sig_a = sig(10);
    let sig_b = sig(20);
    let mut v = SignatureVerifier::new();
    endorse(&mut v, &a, &a, &b, &sig_a);
    endorse(&mut v, &b, &a, &b, &sig_b);

    let mut store = LinkStore::new();
    // A initiates toward B.
    let code = store
        .initiate_link_request(&a, &b, sig_a, &vec![3, 1, 4, 1, 5, 9, 2, 6], 1000)
        .unwrap();
    assert_eq!(code.len(), 9);
    assert_eq!(code.as_bytes()[4], b'-');

    // B completes with the code delivered out of band.
    let input = CompleteLinkInput { pairing_code: code, initiator_agent: a.clone() };
    let address = store.complete_link_request(&b, &input, sig_b, &v, 1100).unwrap();

    let (entry, tombstoned) = store.read_attestation(address).unwrap();
    assert!(!tombstoned);
    assert_eq!(entry.agent_a, a);
    assert_eq!(entry.agent_b, b);
    assert_eq!(entry.created_at, 1100);

    assert!(store.are_agents_linked(&AgentPair { agent_a: a.clone(), agent_b: b.clone() }));
    assert!(store.are_agents_linked(&AgentPair { agent_a: b.clone(), agent_b: a.clone() }));
    assert_eq!(store.get_linked_agents(&a), vec![b.clone()]);
    assert_eq!(store.get_linked_agents(&b), vec![a.clone()]);
}

#[test]
fn complete_without_matching_request_fails() {
    let a = key(1);
    let b = key(2);
    let c = key(3);
    let sig_a = sig(10);
    let mut v = SignatureVerifier::new();
    endorse(&mut v, &a, &a, &b, &sig_a);

    let mut store = LinkStore::new();
    let code = store
        .initiate_link_request(&a, &b, sig_a, &vec![0; 8], 1000)
        .unwrap();

    // Wrong code.
    let wrong_code = CompleteLinkInput {
        pairing_code: String::from("ZZZZ-ZZZZ"),
        initiator_agent: a.clone(),
    };
    assert_eq!(
        store.complete_link_request(&b, &wrong_code, sig(20), &v, 1001).unwrap_err(),
        LinkError::NoMatchingRequest
    );

    // Right code, wrong initiator.
    let wrong_initiator = CompleteLinkInput { pairing_code: code.clone(), initiator_agent: c };
    assert_eq!(
        store.complete_link_request(&b, &wrong_initiator, sig(20), &v, 1001).unwrap_err(),
        LinkError::NoMatchingRequest
    );

    // Right code and initiator, but filed under B, not C.
    let as_c = CompleteLinkInput { pairing_code: code, initiator_agent: a.clone() };
    assert_eq!(
        store.complete_link_request(&key(4), &as_c, sig(20), &v, 1001).unwrap_err(),
        LinkError::NoMatchingRequest
    );
}

#[test]
fn expired_request_fails_and_is_reaped() {
    let a = key(1);
    let b = key(2);
    let sig_a = sig(10);
    let sig_b = sig(20);
    let mut v = SignatureVerifier::new();
    endorse(&mut v, &a, &a, &b, &sig_a);
    endorse(&mut v, &b, &a, &b, &sig_b);

    let mut store = LinkStore::new();
    let code = store
        .initiate_link_request(&a, &b, sig_a, &vec![0; 8], 1000)
        .unwrap();

    // Ten minutes pass, and one second more.
    let input = CompleteLinkInput { pairing_code: code, initiator_agent: a.clone() };
    assert_eq!(
        store.complete_link_request(&b, &input, sig_b.clone(), &v, 1601).unwrap_err(),
        LinkError::PairingExpired
    );

    // No attestation was created.
    assert!(store.read_attestation(0).is_none());
    assert!(!store.are_agents_linked(&AgentPair { agent_a: a.clone(), agent_b: b.clone() }));

    // The expired request was reaped: trying again no longer matches.
    assert_eq!(
        store.complete_link_request(&b, &input, sig_b, &v, 1601).unwrap_err(),
        LinkError::NoMatchingRequest
    );
}

#[test]
fn completion_at_expiry_boundary_still_succeeds() {
    let a = key(1);
    let b = key(2);
    let sig_a = sig(10);
    let sig_b = sig(20);
    let mut v = SignatureVerifier::new();
    endorse(&mut v, &a, &a, &b, &sig_a);
    endorse(&mut v, &b, &a, &b, &sig_b);

    let mut store = LinkStore::new();
    let code = store
        .initiate_link_request(&a, &b, sig_a, &vec![0; 8], 1000)
        .unwrap();
    let input = CompleteLinkInput { pairing_code: code, initiator_agent: a.clone() };
    // expires_at is 1600; at exactly 1600 the request has not yet expired.
    assert!(store.complete_link_request(&b, &input, sig_b, &v, 1600).is_ok());
}

#[test]
fn tampered_signature_fails_with_no_side_effects() {
    let a = key(1);
    let b = key(2);
    let tampered = sig(99);
    let sig_b = sig(20);
    let mut v = SignatureVerifier::new();
    // Only B's signature is genuine; the initiator's is not endorsed.
    endorse(&mut v, &b, &a, &b, &sig_b);

    let mut store = LinkStore::new();
    let code = store
        .initiate_link_request(&a, &b, tampered, &vec![0; 8], 1000)
        .unwrap();

    let input = CompleteLinkInput { pairing_code: code, initiator_agent: a.clone() };
    assert_eq!(
        store.complete_link_request(&b, &input, sig_b.clone(), &v, 1001).unwrap_err(),
        LinkError::InvalidSignature
    );

    // No attestation, no index entries, nothing linked.
    assert!(store.read_attestation(0).is_none());
    assert!(store.get_linked_agents(&a).is_empty());
    assert!(store.get_linked_agents(&b).is_empty());

    // The pending request was not consumed either: the same failure repeats.
    assert_eq!(
        store.complete_link_request(&b, &input, sig_b, &v, 1001).unwrap_err(),
        LinkError::InvalidSignature
    );
}

#[test]
fn direct_link_matches_ceremony_shape() {
    let a = key(1);
    let b = key(2);
    let sig_a = sig(10);
    let sig_b = sig(20);
    let mut v = SignatureVerifier::new();
    endorse(&mut v, &a, &a, &b, &sig_a);
    endorse(&mut v, &b, &a, &b, &sig_b);

    let mut store = LinkStore::new();
    // B links directly with a signature A produced out of band.
    let input = DirectLinkInput { other_agent: a.clone(), other_signature: sig_a };
    let address = store.create_direct_link(&b, &input, sig_b, &v, 500).unwrap();

    let (entry, tombstoned) = store.read_attestation(address).unwrap();
    assert!(!tombstoned);
    assert_eq!(entry.agent_a, a);
    assert_eq!(entry.agent_b, b);
    assert_eq!(entry.created_at, 500);
    assert!(store.are_agents_linked(&AgentPair { agent_a: a, agent_b: b }));
}

#[test]
fn direct_link_rejects_bad_signature() {
    let a = key(1);
    let b = key(2);
    let sig_b = sig(20);
    let mut v = SignatureVerifier::new();
    endorse(&mut v, &b, &a, &b, &sig_b);

    let mut store = LinkStore::new();
    let input = DirectLinkInput { other_agent: a.clone(), other_signature: sig(99) };
    assert_eq!(
        store.create_direct_link(&b, &input, sig_b, &v, 500).unwrap_err(),
        LinkError::InvalidSignature
    );
    assert!(store.read_attestation(0).is_none());
}

#[test]
fn self_link_always_fails() {
    let a = key(1);
    let mut v = SignatureVerifier::new();
    let mut store = LinkStore::new();

    assert_eq!(
        store
            .initiate_link_request(&a, &a, sig(1), &vec![0; 8], 0)
            .unwrap_err(),
        LinkError::SelfLinkForbidden
    );

    let input = DirectLinkInput { other_agent: a.clone(), other_signature: sig(1) };
    assert_eq!(
        store.create_direct_link(&a, &input, sig(2), &v, 0).unwrap_err(),
        LinkError::SelfLinkForbidden
    );
    assert!(store.read_attestation(0).is_none());
}

#[test]
fn revoke_by_non_participant_fails_then_participant_succeeds() {
    let a = key(1);
    let b = key(2);
    let outsider = key(9);
    let sig_a = sig(10);
    let sig_b = sig(20);
    let mut v = SignatureVerifier::new();
    endorse(&mut v, &a, &a, &b, &sig_a);
    endorse(&mut v, &b, &a, &b, &sig_b);

    let mut store = LinkStore::new();
    let input = DirectLinkInput { other_agent: a.clone(), other_signature: sig_a };
    let address = store.create_direct_link(&b, &input, sig_b, &v, 500).unwrap();

    assert_eq!(store.revoke_link(address, &outsider).unwrap_err(), LinkError::Unauthorized);
    assert!(store.are_agents_linked(&AgentPair { agent_a: a.clone(), agent_b: b.clone() }));

    // Either participant alone may revoke.
    let tombstone = store.revoke_link(address, &a).unwrap();
    assert_eq!(tombstone, address);

    assert!(!store.are_agents_linked(&AgentPair { agent_a: a.clone(), agent_b: b.clone() }));
    assert!(!store.are_agents_linked(&AgentPair { agent_a: b.clone(), agent_b: a.clone() }));
    assert!(store.get_linked_agents(&a).is_empty());

    // The record remains readable, tombstoned rather than erased.
    let (entry, tombstoned) = store.read_attestation(address).unwrap();
    assert!(tombstoned);
    assert_eq!(entry.agent_a, a);
    assert_eq!(entry.agent_b, b);
}

#[test]
fn revoke_missing_attestation_fails() {
    let mut store = LinkStore::new();
    assert_eq!(store.revoke_link(0, &key(1)).unwrap_err(), LinkError::NotFound);
}

#[test]
fn revoking_one_of_two_attestations_leaves_the_pair_linked() {
    let a = key(1);
    let b = key(2);
    let mut v = SignatureVerifier::new();
    endorse(&mut v, &a, &a, &b, &sig(10));
    endorse(&mut v, &b, &a, &b, &sig(20));

    let mut store = LinkStore::new();
    let input = DirectLinkInput { other_agent: a.clone(), other_signature: sig(10) };
    let first = store.create_direct_link(&b, &input, sig(20), &v, 1).unwrap();
    let input = DirectLinkInput { other_agent: a.clone(), other_signature: sig(10) };
    let second = store.create_direct_link(&b, &input, sig(20), &v, 2).unwrap();

    // Only the attestation that was revoked loses its trust effect.
    store.revoke_link(first, &a).unwrap();
    assert!(store.are_agents_linked(&AgentPair { agent_a: a.clone(), agent_b: b.clone() }));
    store.revoke_link(second, &b).unwrap();
    assert!(!store.are_agents_linked(&AgentPair { agent_a: a, agent_b: b }));
}

#[test]
fn lookup_deduplicates_by_other_party() {
    let a = key(1);
    let b = key(2);
    let sig_a = sig(10);
    let sig_b = sig(20);
    let mut v = SignatureVerifier::new();
    endorse(&mut v, &a, &a, &b, &sig_a);
    endorse(&mut v, &b, &a, &b, &sig_b);

    let mut store = LinkStore::new();
    // The same pair attested twice: discovery still names B once.
    let input = DirectLinkInput { other_agent: a.clone(), other_signature: sig(10) };
    store.create_direct_link(&b, &input, sig(20), &v, 1).unwrap();
    let input = DirectLinkInput { other_agent: a.clone(), other_signature: sig(10) };
    store.create_direct_link(&b, &input, sig(20), &v, 2).unwrap();

    assert_eq!(store.get_linked_agents(&a), vec![b.clone()]);
    assert_eq!(store.get_linked_agents(&b), vec![a.clone()]);
}
