//! The signature verifier.
//!
//! The substrate's agent-keyed verify primitive is a trusted, already-correct
//! capability, not reimplemented here. The protocol only ever observes it
//! extensionally — for a given (signer, payload, signature) triple it either
//! accepts or rejects — so the verifier is modelled as the set of triples the
//! primitive accepts. A deployment backs it with the real primitive; a test
//! populates it with exactly the signatures it means to be genuine.

use vstd::prelude::*;
use crate::keys::{AgentKey, bytes_eq};
use crate::records::Signature;

verus! {

/// One (signer, payload, signature) triple the substrate's verify primitive
/// accepts.
#[derive(Debug)]
pub struct AcceptedSignature {
    /// Whose key the signature verifies under.
    pub signer: AgentKey,
    /// The exact byte payload signed.
    pub payload: Vec<u8>,
    /// The accepted signature.
    pub signature: Signature,
}

/// The extensional model of the substrate's verify primitive.
#[derive(Debug)]
pub struct SignatureVerifier {
    pub accepted: Vec<AcceptedSignature>,
}

impl SignatureVerifier {
    /// Whether the primitive accepts `signature` as `signer`'s signature
    /// over `payload`.
    pub open spec fn spec_accepts(&self, signer: Seq<u8>, payload: Seq<u8>, signature: Seq<u8>) -> bool {
        exists|i: int|
            0 <= i < self.accepted@.len() && #[trigger] self.triple_is(i, signer, payload, signature)
    }

    /// The `i`th recorded triple is exactly (signer, payload, signature).
    pub open spec fn triple_is(&self, i: int, signer: Seq<u8>, payload: Seq<u8>, signature: Seq<u8>) -> bool {
        self.accepted@[i].signer@ == signer && self.accepted@[i].payload@ == payload
            && self.accepted@[i].signature@ == signature
    }

    /// A verifier that accepts nothing.
    pub fn new() -> (r: SignatureVerifier)
        ensures
            forall|s: Seq<u8>, p: Seq<u8>, g: Seq<u8>| !r.spec_accepts(s, p, g),
    {
        SignatureVerifier { accepted: Vec::new() }
    }

    /// Records one more triple as accepted.
    pub fn endorse(&mut self, triple: AcceptedSignature)
        ensures
            final(self).accepted@ == old(self).accepted@.push(triple),
            final(self).spec_accepts(triple.signer@, triple.payload@, triple.signature@),
            forall|s: Seq<u8>, p: Seq<u8>, g: Seq<u8>|
                old(self).spec_accepts(s, p, g) ==> final(self).spec_accepts(s, p, g),
    {
        self.accepted.push(triple);
        proof {
            let n = self.accepted@.len() - 1;
            assert(self.triple_is(n, triple.signer@, triple.payload@, triple.signature@));
            assert forall|s: Seq<u8>, p: Seq<u8>, g: Seq<u8>|
                old(self).spec_accepts(s, p, g) implies self.spec_accepts(s, p, g) by {
                let i = choose|i: int|
                    0 <= i < old(self).accepted@.len() && #[trigger] old(self).triple_is(i, s, p, g);
                assert(self.triple_is(i, s, p, g));
            }
        }
    }

    /// Decides whether the primitive accepts the triple.
    pub fn verify(&self, signer: &AgentKey, payload: &Vec<u8>, signature: &Signature) -> (r: bool)
        ensures
            r == self.spec_accepts(signer@, payload@, signature@),
    {
        let mut i: usize = 0;
        while i < self.accepted.len()
            invariant
                i <= self.accepted@.len(),
                forall|j: int| 0 <= j < i ==> !self.triple_is(j, signer@, payload@, signature@),
            decreases self.accepted@.len() - i,
        {
            let t = &self.accepted[i];
            if t.signer.key_eq(signer) && bytes_eq(&t.payload, payload)
                && bytes_eq(t.signature.raw(), signature.raw()) {
                proof {
                    assert(self.triple_is(i as int, signer@, payload@, signature@));
                }
                return true;
            }
            i = i + 1;
        }
        false
    }
}

} // verus!
