//! The attestation store, its discovery index, and the protocol's
//! operations over them.
//!
//! The substrate beneath the protocol is an ownership-partitioned,
//! append-only, content-addressed ledger: records are never mutated, only
//! appended and tombstoned, and two one-way index pointers — one per
//! participant — are the only discovery path to an attestation. The store
//! models exactly that view: an append-only table of attestations, a
//! parallel tombstone flag per record, the pointer index, and the pending
//! link requests filed under their targets' keys.
//!
//! Everything that depends on the outside world reaches an operation as an
//! argument: the caller's identity, the current time, the random bytes a
//! pairing code is drawn from, locally produced signatures, and the
//! signature verifier.

use vstd::prelude::*;
use crate::codes::{generate_pairing_code, spec_code, CODE_ENTROPY_LEN};
use crate::errors::{LinkError, InvalidReason, ValidateResult};
use crate::keys::{AgentKey, lex_lt, lemma_lex_connected};
use crate::payload::{build_payload, spec_payload, lemma_payload_order_independent};
use crate::records::{
    AgentPair, CompleteLinkInput, DirectLinkInput, IsSamePersonEntry, PendingLinkTag, Signature,
};
use crate::sigs::SignatureVerifier;
use crate::validator::{spec_validate_entry, validate_is_same_person_entry};

verus! {

/// How long a pending link request lives, in seconds.
pub const LINK_REQUEST_EXPIRY_SECS: i64 = 600;

/// A pending link request as filed: the ceremony tag, the target it is
/// filed under, and its tombstone flag.
#[derive(Debug)]
pub struct PendingRecord {
    /// Whose index the request is filed under: the target, so the target
    /// can discover it without knowing who initiated.
    pub target: AgentKey,
    /// The ceremony data.
    pub tag: PendingLinkTag,
    /// Whether the request has been consumed or reaped.
    pub deleted: bool,
}

/// A one-way discovery pointer from a participant's key to an attestation.
#[derive(Debug)]
pub struct IndexPointer {
    /// The participant under whose key the pointer is filed.
    pub owner: AgentKey,
    /// The address of the attestation it points to.
    pub attestation: usize,
}

/// The store: attestations, their tombstones, the discovery index, and the
/// pending link requests.
#[derive(Debug)]
pub struct LinkStore {
    /// The append-only, content-addressed attestation table; an address is
    /// a position in it.
    pub attestations: Vec<IsSamePersonEntry>,
    /// One tombstone flag per attestation. Tombstoning is monotonic: a
    /// record is never un-revoked, and never erased.
    pub tombstoned: Vec<bool>,
    /// The discovery index: exactly two pointers per attestation, one per
    /// participant.
    pub index: Vec<IndexPointer>,
    /// Pending link requests, in order of filing.
    pub pending: Vec<PendingRecord>,
}

/// Whether a pending record is a live request filed under `me` for this
/// pairing code and initiator. Both the code and the initiator must agree:
/// codes are not assumed globally unique, the pair disambiguates.
pub open spec fn request_matches(
    p: PendingRecord,
    me: Seq<u8>,
    code: Seq<char>,
    initiator: Seq<u8>,
) -> bool {
    !p.deleted && p.target@ == me && p.tag.pairing_code@ == code && p.tag.initiator@ == initiator
}

/// No pending record matches.
pub open spec fn no_match(s: Seq<PendingRecord>, me: Seq<u8>, code: Seq<char>, initiator: Seq<u8>) -> bool {
    forall|j: int| 0 <= j < s.len() ==> !#[trigger] request_matches(s[j], me, code, initiator)
}

/// `k` is the first matching pending record.
pub open spec fn is_first_match(
    s: Seq<PendingRecord>,
    me: Seq<u8>,
    code: Seq<char>,
    initiator: Seq<u8>,
    k: int,
) -> bool {
    &&& 0 <= k < s.len()
    &&& request_matches(s[k], me, code, initiator)
    &&& forall|j: int| 0 <= j < k ==> !#[trigger] request_matches(s[j], me, code, initiator)
}

/// At most one pending record is the first match.
pub proof fn lemma_first_match_unique(
    s: Seq<PendingRecord>,
    me: Seq<u8>,
    code: Seq<char>,
    initiator: Seq<u8>,
    k1: int,
    k2: int,
)
    requires
        is_first_match(s, me, code, initiator, k1),
        is_first_match(s, me, code, initiator, k2),
    ensures
        k1 == k2,
{
    if k1 < k2 {
        assert(!request_matches(s[k1], me, code, initiator));
    }
    if k2 < k1 {
        assert(!request_matches(s[k2], me, code, initiator));
    }
}

/// The attestation both ceremony paths build: canonically oriented over
/// `me` and `other`, each signature beside its owner's key.
pub open spec fn entry_built_from(
    e: IsSamePersonEntry,
    me: Seq<u8>,
    my_sig: Seq<u8>,
    other: Seq<u8>,
    other_sig: Seq<u8>,
    now: int,
) -> bool {
    &&& e.created_at == now
    &&& if lex_lt(other, me) {
        e.agent_a@ == other && e.signature_a@ == other_sig && e.agent_b@ == me
            && e.signature_b@ == my_sig
    } else {
        e.agent_a@ == me && e.signature_a@ == my_sig && e.agent_b@ == other
            && e.signature_b@ == other_sig
    }
}

/// The fields of one pending record, by view.
pub open spec fn pending_record_is(
    p: PendingRecord,
    target: Seq<u8>,
    code: Seq<char>,
    sig: Seq<u8>,
    initiator: Seq<u8>,
    expires_at: int,
    deleted: bool,
) -> bool {
    &&& p.target@ == target
    &&& p.tag.pairing_code@ == code
    &&& p.tag.signature@ == sig
    &&& p.tag.initiator@ == initiator
    &&& p.tag.expires_at == expires_at
    &&& p.deleted == deleted
}

/// The pending records after record `k` was tombstoned: only its tombstone
/// flag changed.
pub open spec fn reaped(pre: Seq<PendingRecord>, post: Seq<PendingRecord>, k: int) -> bool {
    &&& post.len() == pre.len()
    &&& forall|j: int| 0 <= j < pre.len() && j != k ==> post[j] == pre[j]
    &&& 0 <= k < pre.len()
    &&& pending_record_is(
        post[k],
        pre[k].target@,
        pre[k].tag.pairing_code@,
        pre[k].tag.signature@,
        pre[k].tag.initiator@,
        pre[k].tag.expires_at as int,
        true,
    )
}

impl LinkStore {
    /// Pointer `j` is well formed: it points at attestation `j / 2`, and is
    /// owned by that attestation's first (even `j`) or second (odd `j`)
    /// participant.
    pub open spec fn index_entry_wf(&self, j: int) -> bool {
        let p = self.index@[j];
        &&& p.attestation == j / 2
        &&& 0 <= j / 2 < self.attestations@.len()
        &&& p.owner@ == if j % 2 == 0 {
            self.attestations@[j / 2].agent_a@
        } else {
            self.attestations@[j / 2].agent_b@
        }
    }

    /// The store's invariant: tombstones parallel the attestations, every
    /// attestation is canonically oriented over well-formed keys and has
    /// exactly its two discovery pointers, and every pending record names
    /// well-formed keys.
    pub open spec fn wf(&self) -> bool {
        &&& self.tombstoned@.len() == self.attestations@.len()
        &&& self.index@.len() == 2 * self.attestations@.len()
        &&& forall|i: int|
            0 <= i < self.attestations@.len() ==> (#[trigger] self.attestations@[i]).keys_wf()
                && self.attestations@[i].canonically_oriented()
        &&& forall|j: int| 0 <= j < self.index@.len() ==> #[trigger] self.index_entry_wf(j)
        &&& forall|i: int|
            0 <= i < self.pending@.len() ==> (#[trigger] self.pending@[i]).target.wf()
                && self.pending@[i].tag.initiator.wf()
    }

    /// Attestation `i` is live and covers exactly the unordered pair
    /// `{x, y}`.
    pub open spec fn attestation_live_for(&self, i: int, x: Seq<u8>, y: Seq<u8>) -> bool {
        &&& 0 <= i < self.attestations@.len()
        &&& !self.tombstoned@[i]
        &&& self.attestations@[i].pair_matches(x, y)
    }

    /// Two keys are linked: some live attestation covers the pair.
    pub open spec fn spec_linked(&self, x: Seq<u8>, y: Seq<u8>) -> bool {
        exists|i: int| #[trigger] self.attestation_live_for(i, x, y)
    }

    /// An empty store.
    pub fn new() -> (r: LinkStore)
        ensures
            r.wf(),
            r.attestations@.len() == 0,
            r.tombstoned@.len() == 0,
            r.index@.len() == 0,
            r.pending@.len() == 0,
    {
        LinkStore {
            attestations: Vec::new(),
            tombstoned: Vec::new(),
            index: Vec::new(),
            pending: Vec::new(),
        }
    }

    /// Reads an attestation together with its tombstone state; the record
    /// stays readable after revocation.
    pub fn read_attestation(&self, address: usize) -> (r: Option<(&IsSamePersonEntry, bool)>)
        requires
            self.wf(),
        ensures
            match r {
                Some(p) => address < self.attestations@.len() && *p.0
                    == self.attestations@[address as int] && p.1 == self.tombstoned@[address as int],
                None => address >= self.attestations@.len(),
            },
    {
        if address < self.attestations.len() {
            Some((&self.attestations[address], self.tombstoned[address]))
        } else {
            None
        }
    }

    /// What `initiate_link_request` guarantees, relating the store before
    /// and after the call to its result.
    pub open spec fn initiate_post(
        pre: LinkStore,
        post: LinkStore,
        r: Result<String, LinkError>,
        me: Seq<u8>,
        target: Seq<u8>,
        sig: Seq<u8>,
        entropy: Seq<u8>,
        now: int,
    ) -> bool {
        if me == target {
            &&& r matches Err(e) && e == LinkError::SelfLinkForbidden
            &&& post == pre
        } else {
            &&& r matches Ok(code) && code@ == spec_code(entropy)
            &&& post.attestations@ == pre.attestations@
            &&& post.tombstoned@ == pre.tombstoned@
            &&& post.index@ == pre.index@
            &&& post.pending@.len() == pre.pending@.len() + 1
            &&& forall|j: int| 0 <= j < pre.pending@.len() ==> post.pending@[j] == pre.pending@[j]
            &&& pending_record_is(
                post.pending@.last(),
                target,
                spec_code(entropy),
                sig,
                me,
                now + LINK_REQUEST_EXPIRY_SECS,
                false,
            )
        }
    }

    /// Initiates the pairing ceremony toward `target_agent`.
    ///
    /// Self-linking is rejected before anything else. Otherwise a pairing
    /// code is derived from the random bytes, and a pending request holding
    /// the caller's signature over the canonical pair payload is filed
    /// under the target's key with a ten-minute expiry. The code is
    /// returned for out-of-band delivery to the target.
    pub fn initiate_link_request(
        &mut self,
        my_key: &AgentKey,
        target_agent: &AgentKey,
        my_signature: Signature,
        entropy: &Vec<u8>,
        now: i64,
    ) -> (r: Result<String, LinkError>)
        requires
            old(self).wf(),
            my_key.wf(),
            target_agent.wf(),
            entropy@.len() == CODE_ENTROPY_LEN,
            now <= i64::MAX - LINK_REQUEST_EXPIRY_SECS,
        ensures
            final(self).wf(),
            LinkStore::initiate_post(
                *old(self),
                *final(self),
                r,
                my_key@,
                target_agent@,
                my_signature@,
                entropy@,
                now as int,
            ),
    {
        if my_key.key_eq(target_agent) {
            return Err(LinkError::SelfLinkForbidden);
        }
        let pairing_code = generate_pairing_code(entropy);
        let tag = PendingLinkTag {
            pairing_code: pairing_code.clone(),
            signature: my_signature,
            initiator: my_key.clone(),
            expires_at: now + LINK_REQUEST_EXPIRY_SECS,
        };
        self.pending.push(PendingRecord { target: target_agent.clone(), tag, deleted: false });
        proof {
            assert forall|jj: int| 0 <= jj < self.index@.len() implies #[trigger] self
                .index_entry_wf(jj) by {
                assert(old(self).index_entry_wf(jj));
            }
        }
        Ok(pairing_code)
    }

    /// What committing one attestation guarantees: the write-time validator
    /// judges it, a rejection leaves the store untouched, and an accepted
    /// record is appended with its tombstone flag clear and its two
    /// discovery pointers.
    pub open spec fn commit_post(
        pre: LinkStore,
        post: LinkStore,
        r: Result<usize, LinkError>,
        entry: IsSamePersonEntry,
        author: AgentKey,
        v: SignatureVerifier,
    ) -> bool {
        match spec_validate_entry(entry, author, v) {
            ValidateResult::Invalid(reason) => {
                &&& r matches Err(e) && e == LinkError::Invalid(reason)
                &&& post == pre
            },
            ValidateResult::Valid => {
                &&& r matches Ok(a) && a == pre.attestations@.len()
                &&& post.attestations@ == pre.attestations@.push(entry)
                &&& post.tombstoned@ == pre.tombstoned@.push(false)
                &&& post.index@.len() == pre.index@.len() + 2
                &&& forall|j: int| 0 <= j < pre.index@.len() ==> post.index@[j] == pre.index@[j]
                &&& post.index@[pre.index@.len() as int].owner@ == entry.agent_a@
                &&& post.index@[pre.index@.len() as int].attestation == pre.attestations@.len()
                &&& post.index@[pre.index@.len() as int + 1].owner@ == entry.agent_b@
                &&& post.index@[pre.index@.len() as int + 1].attestation == pre.attestations@.len()
                &&& post.pending@ == pre.pending@
                &&& post.spec_linked(entry.agent_a@, entry.agent_b@)
            },
        }
    }

    /// Commits an attestation as the single logical unit the substrate
    /// makes of it: the record and both discovery pointers. The write-time
    /// validator re-checks every invariant first, whoever built the entry.
    pub fn commit(
        &mut self,
        entry: IsSamePersonEntry,
        author: &AgentKey,
        v: &SignatureVerifier,
    ) -> (r: Result<usize, LinkError>)
        requires
            old(self).wf(),
            entry.keys_wf(),
        ensures
            final(self).wf(),
            LinkStore::commit_post(*old(self), *final(self), r, entry, *author, *v),
    {
        let verdict = validate_is_same_person_entry(&entry, author, v);
        match verdict {
            ValidateResult::Invalid(reason) => Err(LinkError::Invalid(reason)),
            ValidateResult::Valid => {
                let address = self.attestations.len();
                let pointer_a = IndexPointer { owner: entry.agent_a.clone(), attestation: address };
                let pointer_b = IndexPointer { owner: entry.agent_b.clone(), attestation: address };
                self.attestations.push(entry);
                self.tombstoned.push(false);
                self.index.push(pointer_a);
                self.index.push(pointer_b);
                proof {
                    let n = address as int;
                    assert forall|j: int| 0 <= j < self.index@.len() implies #[trigger] self
                        .index_entry_wf(j) by {
                        if j < 2 * n {
                            assert(old(self).index_entry_wf(j));
                        }
                    }
                    assert(self.attestation_live_for(
                        n,
                        self.attestations@[n].agent_a@,
                        self.attestations@[n].agent_b@,
                    ));
                }
                Ok(address)
            },
        }
    }

    /// The common tail of both linking paths on success: the freshly built
    /// attestation is committed at the next address, both signatures verify
    /// over the canonical pair payload, and the pair is linked.
    pub open spec fn ceremony_commit_post(
        pre: LinkStore,
        post: LinkStore,
        r: Result<usize, LinkError>,
        me: Seq<u8>,
        my_sig: Seq<u8>,
        other: Seq<u8>,
        other_sig: Seq<u8>,
        v: SignatureVerifier,
        now: int,
    ) -> bool {
        &&& r matches Ok(a) && a == pre.attestations@.len()
        &&& post.attestations@.len() == pre.attestations@.len() + 1
        &&& forall|i: int|
            0 <= i < pre.attestations@.len() ==> post.attestations@[i] == pre.attestations@[i]
        &&& entry_built_from(post.attestations@.last(), me, my_sig, other, other_sig, now)
        &&& post.tombstoned@ == pre.tombstoned@.push(false)
        &&& post.index@.len() == pre.index@.len() + 2
        &&& forall|j: int| 0 <= j < pre.index@.len() ==> post.index@[j] == pre.index@[j]
        &&& v.spec_accepts(post.attestations@.last().agent_a@, spec_payload(me, other), post.attestations@.last().signature_a@)
        &&& v.spec_accepts(post.attestations@.last().agent_b@, spec_payload(me, other), post.attestations@.last().signature_b@)
        &&& post.spec_linked(me, other)
    }

    /// What `complete_link_request` guarantees for the first matching
    /// pending request `k`.
    pub open spec fn complete_match_post(
        pre: LinkStore,
        post: LinkStore,
        r: Result<usize, LinkError>,
        me: AgentKey,
        input: CompleteLinkInput,
        my_sig: Signature,
        v: SignatureVerifier,
        now: int,
        k: int,
    ) -> bool {
        let m = pre.pending@[k].tag;
        let initiator = input.initiator_agent@;
        let payload = spec_payload(me@, initiator);
        if m.expires_at < now {
            // Expired: the request is reaped and nothing else changes.
            &&& r matches Err(e) && e == LinkError::PairingExpired
            &&& post.attestations@ == pre.attestations@
            &&& post.tombstoned@ == pre.tombstoned@
            &&& post.index@ == pre.index@
            &&& reaped(pre.pending@, post.pending@, k)
        } else if !v.spec_accepts(initiator, payload, m.signature@) {
            // The initiator's stored signature does not verify: abort with
            // no state change at all.
            &&& r matches Err(e) && e == LinkError::InvalidSignature
            &&& post == pre
        } else if initiator == me@ {
            // A self-pair can only have been injected; the write-time
            // validator rejects it.
            &&& r matches Err(e) && e == LinkError::Invalid(InvalidReason::AgentsEqual)
            &&& post == pre
        } else if !v.spec_accepts(me@, payload, my_sig@) {
            // The locally produced signature does not verify either; the
            // write-time validator rejects the record, naming the slot the
            // caller's signature would fill.
            &&& r matches Err(e) && e == LinkError::Invalid(
                if lex_lt(initiator, me@) {
                    InvalidReason::SignatureBInvalid
                } else {
                    InvalidReason::SignatureAInvalid
                },
            )
            &&& post == pre
        } else {
            &&& LinkStore::ceremony_commit_post(
                pre,
                post,
                r,
                me@,
                my_sig@,
                initiator,
                m.signature@,
                v,
                now,
            )
            &&& spec_validate_entry(post.attestations@.last(), me, v) == ValidateResult::Valid
            &&& reaped(pre.pending@, post.pending@, k)
        }
    }

    /// What `complete_link_request` guarantees.
    pub open spec fn complete_post(
        pre: LinkStore,
        post: LinkStore,
        r: Result<usize, LinkError>,
        me: AgentKey,
        input: CompleteLinkInput,
        my_sig: Signature,
        v: SignatureVerifier,
        now: int,
    ) -> bool {
        &&& (no_match(pre.pending@, me@, input.pairing_code@, input.initiator_agent@) ==> {
            &&& r matches Err(e) && e == LinkError::NoMatchingRequest
            &&& post == pre
        })
        &&& forall|k: int|
            #[trigger] is_first_match(pre.pending@, me@, input.pairing_code@, input.initiator_agent@, k)
                ==> LinkStore::complete_match_post(pre, post, r, me, input, my_sig, v, now, k)
    }

    /// Completes the ceremony as the target.
    ///
    /// Scans the pending requests filed under the caller's key for the
    /// first one matching both the pairing code and the claimed initiator.
    /// An expired match is reaped and reported as such; otherwise the
    /// initiator's stored signature is verified over the canonical pair
    /// payload, the caller's own signature is added, and the canonically
    /// oriented attestation is committed — subject to the same write-time
    /// validation as any other write — with the consumed request tombstoned
    /// last.
    pub fn complete_link_request(
        &mut self,
        my_key: &AgentKey,
        input: &CompleteLinkInput,
        my_signature: Signature,
        v: &SignatureVerifier,
        now: i64,
    ) -> (r: Result<usize, LinkError>)
        requires
            old(self).wf(),
            my_key.wf(),
            input.initiator_agent.wf(),
        ensures
            final(self).wf(),
            LinkStore::complete_post(
                *old(self),
                *final(self),
                r,
                *my_key,
                *input,
                my_signature,
                *v,
                now as int,
            ),
    {
        let ghost me = my_key@;
        let ghost code = input.pairing_code@;
        let ghost initiator = input.initiator_agent@;

        // Find the first live matching request.
        let mut i: usize = 0;
        let mut found: Option<usize> = None;
        while i < self.pending.len()
            invariant
                *self == *old(self),
                me == my_key@,
                code == input.pairing_code@,
                initiator == input.initiator_agent@,
                i <= self.pending@.len(),
                match found {
                    None => forall|j: int|
                        0 <= j < i ==> !#[trigger] request_matches(
                            self.pending@[j],
                            me,
                            code,
                            initiator,
                        ),
                    Some(k) => is_first_match(self.pending@, me, code, initiator, k as int),
                },
            decreases self.pending@.len() - i,
        {
            if found.is_none() {
                let p = &self.pending[i];
                if !p.deleted && p.target.key_eq(my_key)
                    && string_eq(&p.tag.pairing_code, &input.pairing_code)
                    && p.tag.initiator.key_eq(&input.initiator_agent) {
                    found = Some(i);
                } else {
                    assert(!request_matches(self.pending@[i as int], me, code, initiator));
                }
            }
            i = i + 1;
        }

        let k = match found {
            None => {
                // The scan saw everything and nothing matched.
                return Err(LinkError::NoMatchingRequest);
            },
            Some(k) => k,
        };
        let ghost gk = k as int;
        proof {
            assert forall|k2: int|
                #[trigger] is_first_match(old(self).pending@, me, code, initiator, k2) implies k2
                == gk by {
                lemma_first_match_unique(old(self).pending@, me, code, initiator, k2, gk);
            }
        }

        // Expiry is checked lazily, here and only here; an expired request
        // is reaped before the failure is reported.
        if self.pending[k].tag.expires_at < now {
            self.pending[k].deleted = true;
            proof {
                assert forall|jj: int| 0 <= jj < self.index@.len() implies #[trigger] self
                    .index_entry_wf(jj) by {
                    assert(old(self).index_entry_wf(jj));
                }
            }
            return Err(LinkError::PairingExpired);
        }

        // Verify the initiator's signature over the canonical pair payload.
        let payload = build_payload(my_key, &input.initiator_agent);
        let initiator_signature = self.pending[k].tag.signature.clone();
        if !v.verify(&input.initiator_agent, &payload, &initiator_signature) {
            return Err(LinkError::InvalidSignature);
        }

        // Sign locally and commit the canonically oriented attestation.
        let entry = build_entry(my_key, my_signature, &input.initiator_agent, initiator_signature, now);
        proof {
            lemma_payload_order_independent(me, initiator);
            if initiator != me {
                lemma_lex_connected(me, initiator);
            }
        }
        let ghost built = entry;
        match self.commit(entry, my_key, v) {
            Ok(address) => {
                let ghost committed = *self;
                // Consume the pending request; a stale one would have had
                // no trust effect, but cleanliness is free here.
                self.pending[k].deleted = true;
                proof {
                    let n = old(self).attestations@.len() as int;
                    assert(self.attestations@[n] == built);
                    assert(self.attestation_live_for(n, me, initiator));
                    assert forall|jj: int| 0 <= jj < self.index@.len() implies #[trigger] self
                        .index_entry_wf(jj) by {
                        assert(committed.index_entry_wf(jj));
                    }
                }
                Ok(address)
            },
            Err(e) => Err(e),
        }
    }

    /// What `create_direct_link` guarantees.
    pub open spec fn direct_post(
        pre: LinkStore,
        post: LinkStore,
        r: Result<usize, LinkError>,
        me: AgentKey,
        input: DirectLinkInput,
        my_sig: Signature,
        v: SignatureVerifier,
        now: int,
    ) -> bool {
        let other = input.other_agent@;
        let payload = spec_payload(me@, other);
        if me@ == other {
            &&& r matches Err(e) && e == LinkError::SelfLinkForbidden
            &&& post == pre
        } else if !v.spec_accepts(other, payload, input.other_signature@) {
            &&& r matches Err(e) && e == LinkError::InvalidSignature
            &&& post == pre
        } else if !v.spec_accepts(me@, payload, my_sig@) {
            &&& r matches Err(e) && e == LinkError::Invalid(
                if lex_lt(other, me@) {
                    InvalidReason::SignatureBInvalid
                } else {
                    InvalidReason::SignatureAInvalid
                },
            )
            &&& post == pre
        } else {
            &&& LinkStore::ceremony_commit_post(
                pre,
                post,
                r,
                me@,
                my_sig@,
                other,
                input.other_signature@,
                v,
                now,
            )
            &&& spec_validate_entry(post.attestations@.last(), me, v) == ValidateResult::Valid
            &&& post.pending@ == pre.pending@
        }
    }

    /// Links directly with a signature obtained outside the ceremony.
    ///
    /// Rejects self-linking, verifies the other party's signature over the
    /// canonical pair payload, signs locally, and commits exactly as the
    /// ceremony's completion path does — the resulting attestation is
    /// indistinguishable to the validator.
    pub fn create_direct_link(
        &mut self,
        my_key: &AgentKey,
        input: &DirectLinkInput,
        my_signature: Signature,
        v: &SignatureVerifier,
        now: i64,
    ) -> (r: Result<usize, LinkError>)
        requires
            old(self).wf(),
            my_key.wf(),
            input.other_agent.wf(),
        ensures
            final(self).wf(),
            LinkStore::direct_post(
                *old(self),
                *final(self),
                r,
                *my_key,
                *input,
                my_signature,
                *v,
                now as int,
            ),
    {
        let ghost me = my_key@;
        let ghost other = input.other_agent@;
        if my_key.key_eq(&input.other_agent) {
            return Err(LinkError::SelfLinkForbidden);
        }
        let payload = build_payload(my_key, &input.other_agent);
        if !v.verify(&input.other_agent, &payload, &input.other_signature) {
            return Err(LinkError::InvalidSignature);
        }
        let other_signature = input.other_signature.clone();
        let entry = build_entry(my_key, my_signature, &input.other_agent, other_signature, now);
        proof {
            lemma_payload_order_independent(me, other);
            lemma_lex_connected(me, other);
        }
        let ghost built = entry;
        let r = self.commit(entry, my_key, v);
        proof {
            if r is Ok {
                let n = old(self).attestations@.len() as int;
                assert(self.attestations@[n] == built);
                assert(self.attestation_live_for(n, me, other));
            }
        }
        r
    }

    /// Everything `lookup_linked` discovery promises: each returned key is
    /// linked to `agent`, every linked key is returned, and no key twice.
    pub open spec fn linked_agents_post(&self, me: Seq<u8>, r: Seq<AgentKey>) -> bool {
        &&& forall|j: int| 0 <= j < r.len() ==> self.spec_linked(me, #[trigger] r[j]@)
        &&& forall|other: Seq<u8>|
            #[trigger] self.spec_linked(me, other) ==> exists|j: int|
                0 <= j < r.len() && r[j]@ == other
        &&& forall|j1: int, j2: int| 0 <= j1 < j2 < r.len() ==> r[j1]@ != r[j2]@
    }

    /// Returns every agent currently linked to `agent`: follows the
    /// discovery pointers filed under `agent`'s key, skips tombstoned
    /// attestations, resolves each to the other participant, and
    /// de-duplicates by key.
    pub fn get_linked_agents(&self, agent: &AgentKey) -> (r: Vec<AgentKey>)
        requires
            self.wf(),
        ensures
            self.linked_agents_post(agent@, r@),
    {
        let ghost me = agent@;
        let mut result: Vec<AgentKey> = Vec::new();
        let mut j: usize = 0;
        while j < self.index.len()
            invariant
                self.wf(),
                me == agent@,
                j <= self.index@.len(),
                forall|jj: int| 0 <= jj < result@.len() ==> self.spec_linked(me, #[trigger] result@[jj]@),
                forall|j1: int, j2: int| 0 <= j1 < j2 < result@.len() ==> result@[j1]@ != result@[j2]@,
                forall|jj: int|
                    0 <= jj < j && self.pointer_yields(jj, me) ==> exists|x: int|
                        0 <= x < result@.len() && #[trigger] result@[x]@ == self.pointer_target(jj, me),
            decreases self.index@.len() - j,
        {
            let ghost prev = result@;
            assert(self.index_entry_wf(j as int));
            if self.index[j].owner.key_eq(agent) {
                let address = self.index[j].attestation;
                if !self.tombstoned[address] {
                    let e = &self.attestations[address];
                    let other = if e.agent_a.key_eq(agent) {
                        e.agent_b.clone()
                    } else {
                        e.agent_a.clone()
                    };
                    proof {
                        assert(e.agent_a@ == me || e.agent_b@ == me);
                        assert(self.attestation_live_for(address as int, me, other@));
                        assert(other@ == self.pointer_target(j as int, me));
                    }
                    if !contains_key(&result, &other) {
                        result.push(other);
                        proof {
                            assert(result@[result@.len() - 1]@ == self.pointer_target(j as int, me));
                        }
                    } else {
                        proof {
                            let x0 = choose|x: int|
                                0 <= x < result@.len() && #[trigger] result@[x]@ == other@;
                            assert(result@[x0]@ == self.pointer_target(j as int, me));
                        }
                    }
                    assert(exists|x: int|
                        0 <= x < result@.len() && #[trigger] result@[x]@ == self.pointer_target(
                            j as int,
                            me,
                        ));
                }
            }
            proof {
                assert forall|jj: int|
                    0 <= jj < j + 1 && self.pointer_yields(jj, me) implies exists|x: int|
                        0 <= x < result@.len() && #[trigger] result@[x]@ == self.pointer_target(jj, me) by {
                    if jj < j {
                        let x0 = choose|x: int|
                            0 <= x < prev.len() && #[trigger] prev[x]@ == self.pointer_target(jj, me);
                        assert(result@[x0]@ == self.pointer_target(jj, me));
                    }
                }
            }
            j = j + 1;
        }
        proof {
            assert forall|other: Seq<u8>| #[trigger] self.spec_linked(me, other) implies exists|x: int|
                0 <= x < result@.len() && result@[x]@ == other by {
                let i = choose|i: int| self.attestation_live_for(i, me, other);
                let e = self.attestations@[i];
                assert(self.index_entry_wf(2 * i));
                assert(self.index_entry_wf(2 * i + 1));
                if e.agent_a@ == me {
                    assert(self.pointer_yields(2 * i, me));
                    assert(self.pointer_target(2 * i, me) == other);
                } else {
                    assert(self.pointer_yields(2 * i + 1, me));
                    assert(self.pointer_target(2 * i + 1, me) == other);
                }
            }
        }
        result
    }

    /// Pointer `j` is filed under `me` and its attestation is live.
    pub open spec fn pointer_yields(&self, j: int, me: Seq<u8>) -> bool {
        &&& self.index@[j].owner@ == me
        &&& !self.tombstoned@[self.index@[j].attestation as int]
    }

    /// The other participant of the attestation pointer `j` leads to.
    pub open spec fn pointer_target(&self, j: int, me: Seq<u8>) -> Seq<u8> {
        let e = self.attestations@[self.index@[j].attestation as int];
        if e.agent_a@ == me {
            e.agent_b@
        } else {
            e.agent_a@
        }
    }

    /// Whether two agents are linked by a live attestation.
    pub fn are_agents_linked(&self, agents: &AgentPair) -> (r: bool)
        requires
            self.wf(),
        ensures
            r == self.spec_linked(agents.agent_a@, agents.agent_b@),
    {
        let linked = self.get_linked_agents(&agents.agent_a);
        let r = contains_key(&linked, &agents.agent_b);
        proof {
            if r {
                let x = choose|x: int| 0 <= x < linked@.len() && linked@[x]@ == agents.agent_b@;
                assert(self.spec_linked(agents.agent_a@, linked@[x]@));
            }
        }
        r
    }

    /// What `revoke_link` guarantees.
    pub open spec fn revoke_post(
        pre: LinkStore,
        post: LinkStore,
        r: Result<usize, LinkError>,
        address: usize,
        caller: Seq<u8>,
    ) -> bool {
        if address >= pre.attestations@.len() {
            &&& r matches Err(e) && e == LinkError::NotFound
            &&& post == pre
        } else if caller != pre.attestations@[address as int].agent_a@ && caller
            != pre.attestations@[address as int].agent_b@ {
            &&& r matches Err(e) && e == LinkError::Unauthorized
            &&& post == pre
        } else {
            &&& r matches Ok(t) && t == address
            &&& post.attestations@ == pre.attestations@
            &&& post.tombstoned@ == pre.tombstoned@.update(address as int, true)
            &&& post.index@ == pre.index@
            &&& post.pending@ == pre.pending@
        }
    }

    /// Revokes an attestation by tombstoning its creation record.
    ///
    /// Only a participant may revoke, and either may do so alone:
    /// withdrawing trust does not require the other party's cooperation.
    /// The record itself stays readable; only its trust effect ends, and
    /// permanently.
    pub fn revoke_link(&mut self, entry_address: usize, my_key: &AgentKey) -> (r: Result<
        usize,
        LinkError,
    >)
        requires
            old(self).wf(),
        ensures
            final(self).wf(),
            LinkStore::revoke_post(*old(self), *final(self), r, entry_address, my_key@),
    {
        if entry_address >= self.attestations.len() {
            return Err(LinkError::NotFound);
        }
        let e = &self.attestations[entry_address];
        if !my_key.key_eq(&e.agent_a) && !my_key.key_eq(&e.agent_b) {
            return Err(LinkError::Unauthorized);
        }
        self.tombstoned[entry_address] = true;
        proof {
            assert forall|jj: int| 0 <= jj < self.index@.len() implies #[trigger] self
                .index_entry_wf(jj) by {
                assert(old(self).index_entry_wf(jj));
            }
        }
        Ok(entry_address)
    }
}

/// Builds the canonically oriented attestation for `me` and `other`, each
/// signature beside its owner's key.
fn build_entry(
    me: &AgentKey,
    my_signature: Signature,
    other: &AgentKey,
    other_signature: Signature,
    now: i64,
) -> (e: IsSamePersonEntry)
    ensures
        entry_built_from(e, me@, my_signature@, other@, other_signature@, now as int),
        me.wf() && other.wf() ==> e.keys_wf(),
        me@ != other@ ==> e.canonically_oriented(),
{
    proof {
        lemma_lex_connected(me@, other@);
    }
    if other.key_lt(me) {
        IsSamePersonEntry {
            agent_a: other.clone(),
            signature_a: other_signature,
            agent_b: me.clone(),
            signature_b: my_signature,
            created_at: now,
        }
    } else {
        IsSamePersonEntry {
            agent_a: me.clone(),
            signature_a: my_signature,
            agent_b: other.clone(),
            signature_b: other_signature,
            created_at: now,
        }
    }
}

/// Character-for-character equality of two strings.
pub fn string_eq(a: &String, b: &String) -> (r: bool)
    ensures
        r == (a@ == b@),
{
    a.eq(b)
}

/// Whether some key in `keys` has exactly the view of `key`.
pub fn contains_key(keys: &Vec<AgentKey>, key: &AgentKey) -> (r: bool)
    ensures
        r == exists|i: int| 0 <= i < keys@.len() && #[trigger] keys@[i]@ == key@,
{
    let mut i: usize = 0;
    while i < keys.len()
        invariant
            i <= keys@.len(),
            forall|j: int| 0 <= j < i ==> #[trigger] keys@[j]@ != key@,
        decreases keys@.len() - i,
    {
        if keys[i].key_eq(key) {
            return true;
        }
        i = i + 1;
    }
    false
}

} // verus!
