//! The seeds with which the program signs for its derived accounts.
use vstd::prelude::*;
use vstd::bytes::{spec_u64_to_le_bytes, u64_to_le_bytes};

use crate::address::Pubkey;

verus! {

/// The bytes of the ASCII string `track`.
pub open spec fn track_seed() -> Seq<u8> {
    seq![0x74u8, 0x72u8, 0x61u8, 0x63u8, 0x6bu8]
}

/// The bytes of the ASCII string `curve`.
pub open spec fn curve_seed() -> Seq<u8> {
    seq![0x63u8, 0x75u8, 0x72u8, 0x76u8, 0x65u8]
}

/// The bytes of the ASCII string `curve_vault`.
pub open spec fn curve_vault_seed() -> Seq<u8> {
    seq![0x63u8, 0x75u8, 0x72u8, 0x76u8, 0x65u8, 0x5fu8, 0x76u8, 0x61u8, 0x75u8, 0x6cu8, 0x74u8]
}

fn key_bytes(key: &Pubkey) -> (r: Vec<u8>)
    ensures
        r@ == key@,
{
    let mut r: Vec<u8> = Vec::new();
    let mut i: usize = 0;
    while i < 32
        invariant
            0 <= i <= 32,
            r@ == key@.take(i as int),
        decreases 32 - i,
    {
        r.push(key.bytes[i]);
        i = i + 1;
        assert(r@ =~= key@.take(i as int));
    }
    assert(key@.take(32) =~= key@);
    r
}

/// The seeds of a track's account: `track`, the authority, the track id in
/// little-endian bytes, and the bump.
pub fn track_signer_seeds(authority: &Pubkey, track_id: u64, bump: u8) -> (r: Vec<Vec<u8>>)
    ensures
        r@.len() == 4,
        r@[0]@ == track_seed(),
        r@[0]@ == seq![0x74u8, 0x72u8, 0x61u8, 0x63u8, 0x6bu8],
        r@[1]@ == authority@,
        r@[2]@ == spec_u64_to_le_bytes(track_id),
        r@[3]@ == seq![bump],
{
    let mut r: Vec<Vec<u8>> = Vec::new();
    r.push(vec![0x74u8, 0x72u8, 0x61u8, 0x63u8, 0x6bu8]);
    r.push(key_bytes(authority));
    r.push(u64_to_le_bytes(track_id));
    r.push(vec![bump]);
    r
}

/// The seeds of a track's curve account: `curve`, the track, and the bump.
pub fn curve_signer_seeds(track: &Pubkey, bump: u8) -> (r: Vec<Vec<u8>>)
    ensures
        r@.len() == 3,
        r@[0]@ == curve_seed(),
        r@[0]@ == seq![0x63u8, 0x75u8, 0x72u8, 0x76u8, 0x65u8],
        r@[1]@ == track@,
        r@[2]@ == seq![bump],
{
    let mut r: Vec<Vec<u8>> = Vec::new();
    r.push(vec![0x63u8, 0x75u8, 0x72u8, 0x76u8, 0x65u8]);
    r.push(key_bytes(track));
    r.push(vec![bump]);
    r
}

/// The seeds of a track's curve vault: `curve_vault`, the track, and the
/// bump.
pub fn curve_vault_signer_seeds(track: &Pubkey, bump: u8) -> (r: Vec<Vec<u8>>)
    ensures
        r@.len() == 3,
        r@[0]@ == curve_vault_seed(),
        r@[0]@ == seq![
            0x63u8, 0x75u8, 0x72u8, 0x76u8, 0x65u8, 0x5fu8, 0x76u8, 0x61u8, 0x75u8, 0x6cu8, 0x74u8,
        ],
        r@[1]@ == track@,
        r@[2]@ == seq![bump],
{
    let mut r: Vec<Vec<u8>> = Vec::new();
    r.push(vec![0x63u8, 0x75u8, 0x72u8, 0x76u8, 0x65u8, 0x5fu8, 0x76u8, 0x61u8, 0x75u8, 0x6cu8, 0x74u8]);
    r.push(key_bytes(track));
    r.push(vec![bump]);
    r
}

} // verus!
