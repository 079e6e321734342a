//! Identity keys and their total order.
//!
//! An identity key is an opaque, comparable, fixed-length public-key value.
//! It is held as its raw byte encoding: a 3-byte multihash prefix, the
//! 32-byte public key, and a 4-byte location tag, 39 bytes in all. The
//! lexicographic order over that encoding is the total order used for
//! canonical pairing.

use vstd::prelude::*;
use crate::errors::LinkError;

verus! {

/// Length in bytes of a raw identity-key encoding.
pub const KEY_LEN: usize = 39;

/// Strict lexicographic order on byte strings: a proper prefix precedes its
/// extensions, and otherwise the first differing byte decides.
pub open spec fn lex_lt(a: Seq<u8>, b: Seq<u8>) -> bool
    decreases a.len(),
{
    if b.len() == 0 {
        false
    } else if a.len() == 0 {
        true
    } else if a[0] != b[0] {
        a[0] < b[0]
    } else {
        lex_lt(a.drop_first(), b.drop_first())
    }
}

/// The order is irreflexive and asymmetric.
pub proof fn lemma_lex_asymmetric(a: Seq<u8>, b: Seq<u8>)
    ensures
        !(lex_lt(a, b) && lex_lt(b, a)),
    decreases a.len(),
{
    if a.len() > 0 && b.len() > 0 && a[0] == b[0] {
        lemma_lex_asymmetric(a.drop_first(), b.drop_first());
    }
}

/// The order is connected: two unordered byte strings are equal.
pub proof fn lemma_lex_connected(a: Seq<u8>, b: Seq<u8>)
    ensures
        lex_lt(a, b) || lex_lt(b, a) || a =~= b,
    decreases a.len(),
{
    if a.len() > 0 && b.len() > 0 && a[0] == b[0] {
        lemma_lex_connected(a.drop_first(), b.drop_first());
        if !lex_lt(a, b) && !lex_lt(b, a) {
            assert(a.drop_first() =~= b.drop_first());
            assert(a =~= seq![a[0]].add(a.drop_first()));
            assert(b =~= seq![b[0]].add(b.drop_first()));
        }
    }
}

/// Dropping an equal prefix does not change how two byte strings compare.
pub proof fn lemma_lex_skip_common_prefix(a: Seq<u8>, b: Seq<u8>, i: int)
    requires
        0 <= i <= a.len(),
        i <= b.len(),
        forall|j: int| 0 <= j < i ==> a[j] == b[j],
    ensures
        lex_lt(a, b) == lex_lt(a.skip(i), b.skip(i)),
    decreases i,
{
    if i > 0 {
        assert(a.skip(0) =~= a);
        assert(b.skip(0) =~= b);
        assert(a.drop_first() =~= a.skip(1));
        assert(b.drop_first() =~= b.skip(1));
        assert(a.skip(1).skip(i - 1) =~= a.skip(i));
        assert(b.skip(1).skip(i - 1) =~= b.skip(i));
        lemma_lex_skip_common_prefix(a.skip(1), b.skip(1), i - 1);
    } else {
        assert(a.skip(0) =~= a);
        assert(b.skip(0) =~= b);
    }
}

/// An agent's public identity key, as its raw byte encoding.
#[derive(Debug, PartialEq, Eq, Hash)]
pub struct AgentKey {
    bytes: Vec<u8>,
}

impl View for AgentKey {
    type V = Seq<u8>;

    closed spec fn view(&self) -> Seq<u8> {
        self.bytes@
    }
}

impl Clone for AgentKey {
    fn clone(&self) -> (r: Self)
        ensures
            r@ == self@,
    {
        AgentKey { bytes: clone_bytes(&self.bytes) }
    }
}

impl AgentKey {
    /// A key is well formed when it has the fixed raw length.
    pub open spec fn wf(&self) -> bool {
        self@.len() == KEY_LEN
    }

    /// Adopts a raw key encoding, rejecting any of the wrong length.
    pub fn from_raw(bytes: Vec<u8>) -> (r: Result<AgentKey, LinkError>)
        ensures
            match r {
                Ok(k) => k@ == bytes@ && k.wf(),
                Err(e) => e == LinkError::MalformedKey && bytes@.len() != KEY_LEN,
            },
    {
        if bytes.len() == KEY_LEN {
            Ok(AgentKey { bytes })
        } else {
            Err(LinkError::MalformedKey)
        }
    }

    /// The raw byte encoding.
    pub fn raw(&self) -> (r: &Vec<u8>)
        ensures
            r@ == self@,
    {
        &self.bytes
    }

    /// Byte-for-byte equality of two keys.
    pub fn key_eq(&self, other: &AgentKey) -> (r: bool)
        ensures
            r == (self@ == other@),
    {
        bytes_eq(&self.bytes, &other.bytes)
    }

    /// Whether `self` precedes `other` in the canonical total order.
    pub fn key_lt(&self, other: &AgentKey) -> (r: bool)
        ensures
            r == lex_lt(self@, other@),
    {
        lex_lt_bytes(&self.bytes, &other.bytes)
    }
}

/// Copies a byte vector.
pub fn clone_bytes(a: &Vec<u8>) -> (r: Vec<u8>)
    ensures
        r@ == a@,
{
    let mut r: Vec<u8> = Vec::new();
    let mut i: usize = 0;
    while i < a.len()
        invariant
            i <= a.len(),
            r@ =~= a@.take(i as int),
        decreases a.len() - i,
    {
        r.push(a[i]);
        i = i + 1;
        assert(r@ =~= a@.take(i as int));
    }
    assert(a@.take(a@.len() as int) =~= a@);
    r
}

/// Byte-for-byte equality of two byte vectors.
pub fn bytes_eq(a: &Vec<u8>, b: &Vec<u8>) -> (r: bool)
    ensures
        r == (a@ == b@),
{
    if a.len() != b.len() {
        return false;
    }
    let mut i: usize = 0;
    while i < a.len()
        invariant
            i <= a.len(),
            a@.len() == b@.len(),
            forall|j: int| 0 <= j < i ==> a@[j] == b@[j],
        decreases a.len() - i,
    {
        if a[i] != b[i] {
            return false;
        }
        i = i + 1;
    }
    proof {
        assert(a@ =~= b@);
    }
    true
}

/// Decides the lexicographic order on two byte vectors.
pub fn lex_lt_bytes(a: &Vec<u8>, b: &Vec<u8>) -> (r: bool)
    ensures
        r == lex_lt(a@, b@),
{
    let mut i: usize = 0;
    loop
        invariant
            i <= a.len(),
            i <= b.len(),
            forall|j: int| 0 <= j < i ==> a@[j] == b@[j],
        decreases a.len() - i,
    {
        proof {
            lemma_lex_skip_common_prefix(a@, b@, i as int);
        }
        if i == a.len() || i == b.len() {
            // One is a prefix of the other; the shorter precedes.
            proof {
                assert(a@.skip(i as int).len() == a@.len() - i);
                assert(b@.skip(i as int).len() == b@.len() - i);
            }
            return i == a.len() && i < b.len();
        }
        if a[i] != b[i] {
            proof {
                assert(a@.skip(i as int)[0] == a@[i as int]);
                assert(b@.skip(i as int)[0] == b@[i as int]);
            }
            return a[i] < b[i];
        }
        i = i + 1;
    }
}

} // verus!
