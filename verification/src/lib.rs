//! A verified asset registry: a key-addressed store of uniquely owned
//! records ("assets"), each carrying a 16-byte identifier, an owner, and an
//! optional price, with per-owner bounded indices, a global live-asset
//! counter, and atomic mint / transfer / set-price operations.
//!
//! The registry enforces, after every committed operation: identifiers are
//! unique; every live asset is listed in exactly its owner's index; no
//! owner's index holds more than [`OWNER_CAPACITY`] entries; and the global
//! counter equals the number of live assets. An operation either commits
//! all of its writes or fails with a typed [`Error`] and changes nothing.

use vstd::prelude::*;

pub mod id_gen;
pub mod registry;
pub mod owner_index;
pub mod store;

verus! {

/// An authenticated account identity. Resolving a caller into one (and
/// rejecting unsigned calls) is the surrounding harness's job; every
/// operation here takes the identity as a plain argument.
pub type AccountId = u64;

/// A 16-byte opaque asset identifier, carried as its 128-bit value.
pub type AssetId = u128;

/// An unsigned amount used for asset prices.
pub type Balance = u64;

/// The most identifiers one owner's index may hold.
pub const OWNER_CAPACITY: usize = 100;

/// The ways an operation can fail. All are returned to the caller as
/// recoverable results; a failed operation leaves the registry unchanged.
#[derive(Clone, Copy, Debug, PartialEq, Eq)]
pub enum Error {
    /// The generated identifier already names a live asset.
    DuplicateAsset,
    /// The global counter would overflow.
    TooManyAssets,
    /// The receiving owner's index is already at capacity.
    TooManyOwned,
    /// The identifier names no live asset.
    NoSuchAsset,
    /// The caller does not own the asset.
    NotOwner,
    /// Source and destination of a transfer are the same account.
    TransferToSelf,
}

/// A domain event, recorded after the commit of the operation it
/// describes, in commit order.
#[derive(Clone, Copy, Debug, PartialEq, Eq)]
pub enum Event {
    Created { owner: AccountId },
    Transferred { from: AccountId, to: AccountId, id: AssetId },
    PriceSet { owner: AccountId, id: AssetId, new_price: Option<Balance> },
}

} // verus!
