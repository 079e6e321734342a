//! The canonical pair payload.
//!
//! Both parties of a link sign the same byte string: the concatenation of the
//! two raw key encodings, smaller key first under the canonical order. The
//! payload never embeds ceremony metadata, so a direct-link path that skips
//! the ceremony reproduces the identical bytes.

use vstd::prelude::*;
use crate::errors::LinkError;
use crate::keys::{AgentKey, lex_lt, lemma_lex_asymmetric, lemma_lex_connected, KEY_LEN};

verus! {

/// The canonical payload over two raw key encodings: the smaller followed by
/// the larger.
pub open spec fn spec_payload(a: Seq<u8>, b: Seq<u8>) -> Seq<u8> {
    if lex_lt(b, a) {
        b + a
    } else {
        a + b
    }
}

/// The canonical payload does not depend on the order in which the two keys
/// are presented.
pub proof fn lemma_payload_order_independent(a: Seq<u8>, b: Seq<u8>)
    ensures
        spec_payload(a, b) == spec_payload(b, a),
{
    lemma_lex_asymmetric(a, b);
    lemma_lex_connected(a, b);
    if !lex_lt(a, b) && !lex_lt(b, a) {
        assert(a =~= b);
    }
}

/// Concatenates two byte vectors.
fn concat_bytes(a: &Vec<u8>, b: &Vec<u8>) -> (r: Vec<u8>)
    ensures
        r@ == a@ + b@,
{
    let mut r = crate::keys::clone_bytes(a);
    let mut i: usize = 0;
    while i < b.len()
        invariant
            i <= b.len(),
            r@ =~= a@ + b@.take(i as int),
        decreases b.len() - i,
    {
        r.push(b[i]);
        i = i + 1;
        assert(r@ =~= a@ + b@.take(i as int));
    }
    assert(a@ + b@.take(b@.len() as int) =~= a@ + b@);
    r
}

/// Builds the canonical payload for any two keys, in either order.
///
/// Infallible over well-formed keys; the fallible [`sorted_agent_pair_bytes`]
/// wraps it with the malformed-key check.
pub fn build_payload(agent_a: &AgentKey, agent_b: &AgentKey) -> (r: Vec<u8>)
    ensures
        r@ == spec_payload(agent_a@, agent_b@),
{
    if agent_b.key_lt(agent_a) {
        concat_bytes(agent_b.raw(), agent_a.raw())
    } else {
        concat_bytes(agent_a.raw(), agent_b.raw())
    }
}

/// Sorts two agent keys deterministically and concatenates their raw byte
/// encodings. Signals `MalformedKey` if either key is not a well-formed raw
/// encoding.
pub fn sorted_agent_pair_bytes(agent_a: &AgentKey, agent_b: &AgentKey) -> (r: Result<
    Vec<u8>,
    LinkError,
>)
    ensures
        match r {
            Ok(p) => agent_a.wf() && agent_b.wf() && p@ == spec_payload(agent_a@, agent_b@)
                && p@.len() == 2 * KEY_LEN,
            Err(e) => e == LinkError::MalformedKey && !(agent_a.wf() && agent_b.wf()),
        },
{
    if agent_a.raw().len() != KEY_LEN || agent_b.raw().len() != KEY_LEN {
        return Err(LinkError::MalformedKey);
    }
    Ok(build_payload(agent_a, agent_b))
}

} // verus!
