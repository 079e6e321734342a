//! The protocol's records: signatures, the durable attestation, the
//! ephemeral pending link request, and the operation inputs.

use vstd::prelude::*;
use crate::keys::{AgentKey, lex_lt};

verus! {

/// An agent's digital signature over a byte payload. Opaque to the
/// protocol: only the substrate's verify primitive gives it meaning.
#[derive(Debug, PartialEq, Eq)]
pub struct Signature {
    bytes: Vec<u8>,
}

impl View for Signature {
    type V = Seq<u8>;

    closed spec fn view(&self) -> Seq<u8> {
        self.bytes@
    }
}

impl Clone for Signature {
    fn clone(&self) -> (r: Self)
        ensures
            r@ == self@,
    {
        Signature { bytes: crate::keys::clone_bytes(&self.bytes) }
    }
}

impl Signature {
    /// Adopts raw signature bytes.
    pub fn from_raw(bytes: Vec<u8>) -> (r: Signature)
        ensures
            r@ == bytes@,
    {
        Signature { bytes }
    }

    /// The raw signature bytes.
    pub fn raw(&self) -> (r: &Vec<u8>)
        ensures
            r@ == self@,
    {
        &self.bytes
    }
}

/// The durable, immutable attestation that two identity keys belong to the
/// same person. Canonically oriented: `agent_a` is the lexicographically
/// smaller key. Each signature covers the canonical pair payload.
#[derive(Debug, PartialEq, Eq)]
pub struct IsSamePersonEntry {
    /// The smaller key of the pair.
    pub agent_a: AgentKey,
    /// `agent_a`'s signature over the canonical pair payload.
    pub signature_a: Signature,
    /// The larger key of the pair.
    pub agent_b: AgentKey,
    /// `agent_b`'s signature over the canonical pair payload.
    pub signature_b: Signature,
    /// When the attestation was finalised, in seconds.
    pub created_at: i64,
}

impl Clone for IsSamePersonEntry {
    fn clone(&self) -> (r: Self)
        ensures
            r.agent_a@ == self.agent_a@,
            r.signature_a@ == self.signature_a@,
            r.agent_b@ == self.agent_b@,
            r.signature_b@ == self.signature_b@,
            r.created_at == self.created_at,
    {
        IsSamePersonEntry {
            agent_a: self.agent_a.clone(),
            signature_a: self.signature_a.clone(),
            agent_b: self.agent_b.clone(),
            signature_b: self.signature_b.clone(),
            created_at: self.created_at,
        }
    }
}

impl IsSamePersonEntry {
    /// Both keys are well formed.
    pub open spec fn keys_wf(&self) -> bool {
        self.agent_a.wf() && self.agent_b.wf()
    }

    /// The attestation is canonically oriented; this also makes the two
    /// keys distinct.
    pub open spec fn canonically_oriented(&self) -> bool {
        lex_lt(self.agent_a@, self.agent_b@)
    }

    /// Whether this attestation is over exactly the unordered pair `{x, y}`.
    pub open spec fn pair_matches(&self, x: Seq<u8>, y: Seq<u8>) -> bool {
        (self.agent_a@ == x && self.agent_b@ == y) || (self.agent_a@ == y && self.agent_b@ == x)
    }
}

/// The ceremony data a pending link request carries, filed under the
/// target's identity so the target can discover it.
#[derive(Debug)]
pub struct PendingLinkTag {
    /// The out-of-band pairing code, `XXXX-XXXX`.
    pub pairing_code: String,
    /// The initiator's signature over the canonical pair payload for
    /// (initiator, target).
    pub signature: Signature,
    /// Who initiated the ceremony.
    pub initiator: AgentKey,
    /// Absolute expiry, in seconds: initiation time plus ten minutes.
    pub expires_at: i64,
}

impl Clone for PendingLinkTag {
    fn clone(&self) -> (r: Self)
        ensures
            r.pairing_code@ == self.pairing_code@,
            r.signature@ == self.signature@,
            r.initiator@ == self.initiator@,
            r.expires_at == self.expires_at,
    {
        PendingLinkTag {
            pairing_code: self.pairing_code.clone(),
            signature: self.signature.clone(),
            initiator: self.initiator.clone(),
            expires_at: self.expires_at,
        }
    }
}

/// An unordered pair of agents to test for linkage.
#[derive(Debug)]
pub struct AgentPair {
    pub agent_a: AgentKey,
    pub agent_b: AgentKey,
}

/// What the target presents to complete a ceremony.
#[derive(Debug)]
pub struct CompleteLinkInput {
    /// The pairing code received out of band.
    pub pairing_code: String,
    /// Who claims to have initiated the ceremony.
    pub initiator_agent: AgentKey,
}

/// What a caller presents to link directly, bypassing the ceremony.
#[derive(Debug)]
pub struct DirectLinkInput {
    /// The other party's identity key.
    pub other_agent: AgentKey,
    /// The other party's signature over the canonical pair payload,
    /// obtained through a channel outside this protocol.
    pub other_signature: Signature,
}

} // verus!
