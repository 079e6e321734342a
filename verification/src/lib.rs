//! Pairwise identity linking: two agents mutually attest, by dual digital
//! signatures over a canonical payload, that their keys belong to the same
//! person, and may later revoke that attestation by tombstoning it.
//!
//! The library is organised around the protocol's components:
//! - [`keys`]: identity keys and their total (lexicographic) order;
//! - [`payload`]: the canonical, order-independent pair payload both parties sign;
//! - [`codes`]: pairing codes derived from random bytes;
//! - [`records`]: the attestation and the ephemeral pending-request records;
//! - [`sigs`]: the model of the substrate's signature-verify primitive;
//! - [`validator`]: the pure write-time re-check of every attestation invariant;
//! - [`store`]: the attestation store, its discovery index, the pairing
//!   ceremony, direct linking and revocation;
//! - [`laws`]: proofs relating the operations to one another.

pub mod errors;
pub mod keys;
pub mod payload;
pub mod codes;
pub mod records;
pub mod sigs;
pub mod validator;
pub mod store;
pub mod laws;
