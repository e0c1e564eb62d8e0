//! The associated token account address of a wallet for a mint, as the SPL
//! associated-token-account program derives it.
use vstd::prelude::*;

use crate::address::Pubkey;

verus! {

/// The associated token account address of a wallet for a mint (both as
/// their 32 bytes) with the classic SPL Token program: the program address
/// found by `Pubkey::try_find_program_address` from the seeds (wallet, SPL
/// Token program id, mint) under the associated-token-account program, or
/// `None` where no bump seed gives an address off the curve.
pub uninterp spec fn associated_token_address(wallet: Seq<u8>, mint: Seq<u8>) -> Option<Seq<u8>>;

/// Calls `anchor_lang::prelude::Pubkey::try_find_program_address` with the
/// seeds that `anchor_spl::associated_token::get_associated_token_address`
/// uses (wallet, `anchor_spl::token::ID`, mint) under
/// `anchor_spl::associated_token::ID`, keeping the address and dropping the
/// bump. Unlike `get_associated_token_address`, which panics where the search
/// finds no bump seed, it then returns `None`. The contract claims only that
/// the outcome is a function of the two addresses.
#[verifier::external_body]
pub(crate) fn try_associated_token_address(wallet: &Pubkey, mint: &Pubkey) -> (r: Option<Pubkey>)
    ensures
        match r {
            Some(a) => associated_token_address(wallet@, mint@) == Some(a@),
            None => associated_token_address(wallet@, mint@) is None,
        },
{
    let w = anchor_lang::prelude::Pubkey::new_from_array(wallet.bytes);
    let m = anchor_lang::prelude::Pubkey::new_from_array(mint.bytes);
    let seeds: [&[u8]; 3] = [w.as_ref(), anchor_spl::token::ID.as_ref(), m.as_ref()];
    let found = anchor_lang::prelude::Pubkey::try_find_program_address(
        &seeds,
        &anchor_spl::associated_token::ID,
    );
    found.map(|(a, _)| Pubkey::new_from_array(a.to_bytes()))
}

} // verus!
