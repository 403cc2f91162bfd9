//! A verified registry for classifying and naming on-ledger assets.
//!
//! Two registries compose into one workflow. The type-mapping registry owns a
//! durable mapping from a symbol and an authority key to a one-byte type code,
//! created once per pair and updatable only under the same authority. The
//! object registry owns one record per asset, holding the asset's identity, a
//! type code copied from the type-mapping registry at creation time, and an
//! optional display name that any current holder of the asset may change.
//!
//! Every mutating operation re-derives the expected record address from its
//! key material, cross-checks the independently owned records it was handed
//! (metadata, holding), and rejects the operation with a specific error kind
//! if any check fails, leaving all state unchanged.

pub mod errors;
pub mod keys;
pub mod address;
pub mod accounts;
pub mod type_mapper;
pub mod intersolar;
pub mod unpack;
pub mod codec;
