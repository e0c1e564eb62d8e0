//! Verified core of the Muzica music-royalty protocol: track registration and
//! royalty splits, the fixed-price stem marketplace, and the quadratic bonding
//! curve that prices a track's share tokens.

pub mod address;
mod ata;
pub mod curve;
pub mod error;
pub mod market;
pub mod seeds;
pub mod track;
pub mod trading;

pub use address::Pubkey;
pub use error::ErrorCode;

use vstd::prelude::*;

verus! {

/// Longest title, in UTF-8 bytes, that a track may carry.
pub const MAX_TITLE_LEN: usize = 64;

/// Longest IPFS content identifier, in UTF-8 bytes, that a track may carry.
pub const MAX_CID_LEN: usize = 128;

/// Most contributors that a track may list.
pub const MAX_CONTRIBUTORS: usize = 16;

/// Lowest price, in lamports, that a fixed-price listing may be repriced to.
pub const MIN_PRICE_LAMPORTS: u64 = 1_000_000;

} // verus!
