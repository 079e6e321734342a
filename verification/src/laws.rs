//! Protocol-level laws: proofs that relate the operations' contracts to
//! one another, stated over the same spec functions the operations' own
//! `ensures` use.

use vstd::prelude::*;
use crate::errors::{LinkError, ValidateResult};
use crate::keys::{AgentKey, lex_lt, lemma_lex_connected};
use crate::payload::{spec_payload, lemma_payload_order_independent};
use crate::records::{CompleteLinkInput, IsSamePersonEntry, Signature};
use crate::sigs::SignatureVerifier;
use crate::store::{
    entry_built_from, is_first_match, request_matches, LinkStore, LINK_REQUEST_EXPIRY_SECS,
};
use crate::validator::spec_validate_entry;
use crate::codes::spec_code;

verus! {

/// Linkage is symmetric: an attestation covers an unordered pair.
pub proof fn lemma_linked_symmetric(s: LinkStore, x: Seq<u8>, y: Seq<u8>)
    requires
        s.spec_linked(x, y),
    ensures
        s.spec_linked(y, x),
{
    let i = choose|i: int| s.attestation_live_for(i, x, y);
    assert(s.attestation_live_for(i, y, x));
}

/// Every attestation a ceremony completes is canonically oriented, and both
/// of its signatures verify against their owners over the canonical pair
/// payload.
pub proof fn lemma_completed_attestation_valid(
    e: IsSamePersonEntry,
    me: Seq<u8>,
    my_sig: Seq<u8>,
    other: Seq<u8>,
    other_sig: Seq<u8>,
    v: SignatureVerifier,
    now: int,
)
    requires
        entry_built_from(e, me, my_sig, other, other_sig, now),
        me != other,
        v.spec_accepts(me, spec_payload(me, other), my_sig),
        v.spec_accepts(other, spec_payload(me, other), other_sig),
    ensures
        lex_lt(e.agent_a@, e.agent_b@),
        v.spec_accepts(e.agent_a@, spec_payload(e.agent_a@, e.agent_b@), e.signature_a@),
        v.spec_accepts(e.agent_b@, spec_payload(e.agent_a@, e.agent_b@), e.signature_b@),
{
    lemma_lex_connected(me, other);
    lemma_payload_order_independent(me, other);
}

/// Both linking paths build records the validator accepts, whichever
/// participant authored the write: the attestations of the ceremony path
/// and of the direct path are indistinguishable to it.
pub proof fn lemma_ceremony_entry_passes_validator(
    e: IsSamePersonEntry,
    author: AgentKey,
    me: Seq<u8>,
    my_sig: Seq<u8>,
    other: Seq<u8>,
    other_sig: Seq<u8>,
    v: SignatureVerifier,
    now: int,
)
    requires
        entry_built_from(e, me, my_sig, other, other_sig, now),
        me != other,
        v.spec_accepts(me, spec_payload(me, other), my_sig),
        v.spec_accepts(other, spec_payload(me, other), other_sig),
        author@ == me || author@ == other,
    ensures
        spec_validate_entry(e, author, v) == ValidateResult::Valid,
{
    lemma_completed_attestation_valid(e, me, my_sig, other, other_sig, v, now);
}

/// A record that is not canonically oriented is rejected by the validator,
/// whoever authored it and however its signatures stand.
pub proof fn lemma_non_canonical_rejected(
    e: IsSamePersonEntry,
    author: AgentKey,
    v: SignatureVerifier,
)
    requires
        !lex_lt(e.agent_a@, e.agent_b@),
    ensures
        spec_validate_entry(e, author, v) != ValidateResult::Valid,
{
}

/// Initiating toward another agent and then completing right away — as the
/// target, with the code the initiation returned and the initiator named —
/// succeeds and leaves the two agents linked, both ways round.
///
/// The hypotheses are the scenario itself: the two signatures are genuine,
/// completion happens within the expiry window, and no earlier pending
/// request already matched the same target, code and initiator (a fresh
/// code; the ceremony matches the first such request).
pub proof fn lemma_ceremony_round_trip(
    s0: LinkStore,
    s1: LinkStore,
    s2: LinkStore,
    a: AgentKey,
    b: AgentKey,
    sig_a: Signature,
    sig_b: Signature,
    entropy: Seq<u8>,
    now1: int,
    now2: int,
    r1: Result<String, LinkError>,
    r2: Result<usize, LinkError>,
    input: CompleteLinkInput,
    v: SignatureVerifier,
)
    requires
        a@ != b@,
        LinkStore::initiate_post(s0, s1, r1, a@, b@, sig_a@, entropy, now1),
        LinkStore::complete_post(s1, s2, r2, b, input, sig_b, v, now2),
        input.pairing_code@ == spec_code(entropy),
        input.initiator_agent@ == a@,
        forall|j: int|
            0 <= j < s0.pending@.len() ==> !#[trigger] request_matches(
                s0.pending@[j],
                b@,
                spec_code(entropy),
                a@,
            ),
        now2 <= now1 + LINK_REQUEST_EXPIRY_SECS,
        v.spec_accepts(a@, spec_payload(a@, b@), sig_a@),
        v.spec_accepts(b@, spec_payload(a@, b@), sig_b@),
    ensures
        r2 is Ok,
        s2.spec_linked(a@, b@),
        s2.spec_linked(b@, a@),
{
    lemma_payload_order_independent(a@, b@);
    let k = s0.pending@.len() as int;
    assert(request_matches(s1.pending@[k], b@, spec_code(entropy), a@));
    assert forall|j: int| 0 <= j < k implies !#[trigger] request_matches(
        s1.pending@[j],
        b@,
        spec_code(entropy),
        a@,
    ) by {
        assert(s1.pending@[j] == s0.pending@[j]);
        assert(!request_matches(s0.pending@[j], b@, spec_code(entropy), a@));
    }
    assert(is_first_match(s1.pending@, b@, input.pairing_code@, a@, k));
    assert(LinkStore::complete_match_post(s1, s2, r2, b, input, sig_b, v, now2, k));
    assert(s2.spec_linked(b@, a@));
    lemma_linked_symmetric(s2, b@, a@);
}

/// After a participant revokes the only live attestation covering a pair,
/// the pair is no longer linked — while the record itself stays readable,
/// tombstoned rather than erased (the store's contents are unchanged).
pub proof fn lemma_revoked_pair_unlinked(
    pre: LinkStore,
    post: LinkStore,
    r: Result<usize, LinkError>,
    address: usize,
    caller: Seq<u8>,
    x: Seq<u8>,
    y: Seq<u8>,
)
    requires
        pre.wf(),
        LinkStore::revoke_post(pre, post, r, address, caller),
        address < pre.attestations@.len(),
        caller == pre.attestations@[address as int].agent_a@ || caller == pre.attestations@[
            address as int
        ].agent_b@,
        forall|i: int|
            0 <= i < pre.attestations@.len() && i != address ==> !#[trigger] pre
                .attestation_live_for(i, x, y),
    ensures
        !post.spec_linked(x, y),
        post.attestations@ == pre.attestations@,
{
    assert forall|i: int| !#[trigger] post.attestation_live_for(i, x, y) by {
        if 0 <= i < post.attestations@.len() {
            if i == address {
                assert(post.tombstoned@[i]);
            } else {
                assert(!pre.attestation_live_for(i, x, y));
            }
        }
    }
}

} // verus!
