//! BLS signatures over the BLS12-381 pairing-friendly curve.
//!
//! Key and signature types come in two curve-role variants: the plain types
//! keep signatures in the small group G1 and public keys in the large group
//! G2; the `Vt` ("variant") types swap the roles, trading signature size
//! against public-key size. On top of the primitives sit two combination
//! protocols: multi-signatures (several signers, one message) and aggregate
//! signatures (several signers, distinct messages), each verified through the
//! bilinear pairing.
//!
//! Every point of either group is specified by its discrete logarithm with
//! respect to the fixed generator, an integer modulo the prime group order.
//! The pairing and hash-to-curve calls of the underlying curve library stand
//! behind trusted declarations in [`curve`]; everything above them - validity
//! checking, the byte codec, aggregation, and both computation strategies of
//! aggregate verification - is verified against that integer model. The laws
//! the scheme obeys are stated and proved in [`laws`].

pub mod curve;
pub mod laws;
pub mod model;
pub mod types;
pub mod types_vt;

pub use types::AggregateSignature;
pub use types::MultiPublicKey;
pub use types::MultiSignature;
pub use types::PublicKey;
pub use types::SecretKey;
pub use types::Signature;
pub use types_vt::AggregateSignatureVt;
pub use types_vt::MultiPublicKeyVt;
pub use types_vt::MultiSignatureVt;
pub use types_vt::PublicKeyVt;
pub use types_vt::SignatureVt;
