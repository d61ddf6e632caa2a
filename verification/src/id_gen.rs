//! Deterministic identifier generation.
//!
//! A candidate identifier is a 128-bit digest of a byte sequence built from
//! caller-supplied chain context (a recent block hash, the block height,
//! the call's position within its block) and the registry's current
//! counter. Identical inputs always yield the identical identifier; the
//! generator performs no uniqueness check of its own — the registry rejects
//! a colliding identifier at commit time with [`Error::DuplicateAsset`].
//!
//! [`Error::DuplicateAsset`]: crate::Error::DuplicateAsset

use vstd::prelude::*;
use vstd::bytes::spec_u32_to_le_bytes;
use vstd::bytes::spec_u64_to_le_bytes;
use vstd::bytes::u32_to_le_bytes;
use vstd::bytes::u64_to_le_bytes;
use crate::AssetId;

verus! {

/// The most bytes the digest accepts in one input: its encoding step
/// prefixes the input with a compact length that holds at most `u32::MAX`,
/// and panics beyond it.
pub const MAX_DIGEST_INPUT: usize = 0xFFFF_FFFF;

/// The most trailer bytes [`encoding`] appends after the block hash: the
/// height and the counter at eight bytes each, and at most five for the
/// optional call position.
pub const CONTEXT_TRAILER_BYTES: usize = 21;

/// Chain context handed in by the caller of a mint. Its fields are expected
/// to be fresh for each block and call, so that generated identifiers do
/// not repeat; nothing here depends on that expectation.
pub struct Context {
    /// A recent block hash — an arbitrary byte string at this layer,
    /// though a real one is a few dozen bytes (see [`Context::valid`]).
    pub parent_hash: Vec<u8>,
    /// The current block height.
    pub height: u64,
    /// The position of the current call within its block, when known.
    pub extrinsic_index: Option<u32>,
}

/// The byte sequence fed to the digest for a given context and counter:
/// the block hash, then the height, the optional call position (one tag
/// byte, then the value if present), and the counter, integers in
/// little-endian order.
pub open spec fn encoding(
    parent_hash: Seq<u8>,
    height: u64,
    extrinsic_index: Option<u32>,
    counter: u64,
) -> Seq<u8> {
    parent_hash + spec_u64_to_le_bytes(height) + (match extrinsic_index {
        None => seq![0u8],
        Some(i) => seq![1u8] + spec_u32_to_le_bytes(i),
    }) + spec_u64_to_le_bytes(counter)
}

/// The identifier generated for a given context and counter.
pub open spec fn generated_id(
    parent_hash: Seq<u8>,
    height: u64,
    extrinsic_index: Option<u32>,
    counter: u64,
) -> AssetId {
    digest128(encoding(parent_hash, height, extrinsic_index, counter))
}

impl Context {
    /// The identifier this context generates at a given counter value.
    pub open spec fn spec_id(&self, counter: u64) -> AssetId {
        generated_id(self.parent_hash@, self.height, self.extrinsic_index, counter)
    }

    /// A context the generator accepts: the block hash, with the fixed
    /// trailer the encoding appends, fits the digest's input limit. A
    /// real block hash is a few dozen bytes, far below it.
    pub open spec fn valid(&self) -> bool {
        self.parent_hash@.len() + CONTEXT_TRAILER_BYTES <= MAX_DIGEST_INPUT
    }
}

/// What the 128-bit digest returns on a given byte sequence.
pub uninterp spec fn digest128(input: Seq<u8>) -> u128;

/// Relies on `frame_support::Hashable::blake2_128`: the blake2b 128-bit
/// digest of the SCALE encoding of the byte vector, a value that depends
/// on the input bytes alone. The encoding's compact length prefix holds
/// at most `u32::MAX`, and the codec panics on a longer vector, so that
/// much is required here.
#[verifier::external_body]
fn blake2_128(input: &Vec<u8>) -> (r: u128)
    requires
        input@.len() <= MAX_DIGEST_INPUT,
    ensures
        r == digest128(input@),
{
    u128::from_le_bytes(frame_support::Hashable::blake2_128(input))
}

/// Serializes the context fields and the counter into the byte sequence
/// the digest is taken over.
fn encode(ctx: &Context, counter: u64) -> (out: Vec<u8>)
    ensures
        out@ == encoding(ctx.parent_hash@, ctx.height, ctx.extrinsic_index, counter),
{
    let mut out: Vec<u8> = Vec::new();
    let mut i: usize = 0;
    while i < ctx.parent_hash.len()
        invariant
            i <= ctx.parent_hash.len(),
            out@ == ctx.parent_hash@.subrange(0, i as int),
        decreases ctx.parent_hash.len() - i,
    {
        out.push(ctx.parent_hash[i]);
        i = i + 1;
    }
    assert(out@ =~= ctx.parent_hash@);
    let mut height_bytes = u64_to_le_bytes(ctx.height);
    out.append(&mut height_bytes);
    match ctx.extrinsic_index {
        None => {
            out.push(0u8);
        },
        Some(index) => {
            out.push(1u8);
            let mut index_bytes = u32_to_le_bytes(index);
            out.append(&mut index_bytes);
        },
    }
    let mut counter_bytes = u64_to_le_bytes(counter);
    out.append(&mut counter_bytes);
    assert(out@ =~= encoding(ctx.parent_hash@, ctx.height, ctx.extrinsic_index, counter));
    out
}

/// Computes the identifier for this context at the given counter value.
/// The result is pinned to a function of the two arguments: the generator
/// is deterministic, so identical inputs yield the identical identifier.
pub fn generate(ctx: &Context, counter: u64) -> (id: AssetId)
    requires
        ctx.valid(),
    ensures
        id == ctx.spec_id(counter),
{
    let bytes = encode(ctx, counter);
    proof {
        vstd::bytes::lemma_auto_spec_u64_to_from_le_bytes();
        vstd::bytes::lemma_auto_spec_u32_to_from_le_bytes();
        assert(bytes@.len() <= MAX_DIGEST_INPUT);
    }
    blake2_128(&bytes)
}

} // verus!
