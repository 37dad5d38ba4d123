//! Fixed-capacity binary codec for privacy-preserving transaction
//! primitives: notes, nullifiers, inputs, public keys and proofs.
//!
//! Every record type has a fixed encoded size, and every buffer that
//! crosses the trust boundary to the host is exactly `MAX * SIZE` bytes
//! for its record type: encoding zero-fills unused trailing slots, and
//! decoding rejects truncated or malformed buffers wholesale.
//!
//! The flat records in [`types`] are the wire format; [`domain`] holds
//! the tagged domain model (transparent versus obfuscated notes, input
//! versus output roles) and the total lowering / raising conversions
//! between the two. The codec treats curve points and scalars as opaque
//! fixed-size byte groups: validating them as field elements is the
//! host's concern, not this crate's.

pub mod codec;
pub mod domain;
pub mod error;
pub mod types;

pub use types::{Input, Note, Proof, PublicKey};
