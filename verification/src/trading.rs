//! The instructions that trade a track's share tokens and stem NFTs along
//! its bonding curve.
use vstd::prelude::*;

use crate::address::Pubkey;
use crate::curve::{
    buy_cost_fits, buy_with_slippage_check, cost_to_buy_spec, cube, current_price,
    refund_for_sell, sell_refund, sell_refund_fits, spot_price, spot_price_fits,
    CurveState,
};
use crate::error::ErrorCode;
use crate::market::{bps_fee, lemma_u128_to_u64, marketplace_fee, u64_modulus, MarketConfig};

verus! {

/// Emitted when share tokens are bought from the curve.
#[derive(Clone, Copy, Debug)]
pub struct TokensBought {
    pub buyer: Pubkey,
    pub track: Pubkey,
    pub amount: u64,
    pub cost: u64,
    pub fee: u64,
    pub new_supply: u64,
}

/// Emitted when share tokens are sold back into the curve.
#[derive(Clone, Copy, Debug)]
pub struct TokensSold {
    pub seller: Pubkey,
    pub track: Pubkey,
    pub amount: u64,
    pub refund: u64,
    pub fee: u64,
    pub new_supply: u64,
}

/// Emitted when a stem NFT is bought at the curve's spot price.
#[derive(Clone, Copy, Debug)]
pub struct NFTBoughtWithCurvePrice {
    pub buyer: Pubkey,
    pub track: Pubkey,
    pub nft_mint: Pubkey,
    pub price: u64,
    pub spot_price: u64,
}

/// What a token purchase moves: `vault_amount` lamports to the curve vault
/// and `fee` to the marketplace treasury, `cost` in all.
#[derive(Clone, Copy, Debug)]
pub struct TokenPurchase {
    pub cost: u64,
    pub fee: u64,
    pub vault_amount: u64,
    pub event: TokensBought,
}

/// What a token sale moves: `seller_amount` lamports to the seller and `fee`
/// to the marketplace treasury, out of the curve's `refund`.
#[derive(Clone, Copy, Debug)]
pub struct TokenSale {
    pub refund: u128,
    pub seller_amount: u64,
    pub fee: u64,
    pub event: TokensSold,
}

/// The lamport balances after an NFT is bought at the curve price.
#[derive(Clone, Copy, Debug)]
pub struct CurveNftSale {
    pub price: u64,
    pub buyer_balance: u64,
    pub treasury_balance: u64,
    pub event: NFTBoughtWithCurvePrice,
}

/// A fresh curve for a track: supply and reserve zero, no stored vault.
/// Refused with `InvalidBasePrice`, `InvalidCurveParam` or `InvalidArgs`
/// where the base price, `k` or the tokens per NFT is zero.
pub fn initialize_curve_for_track(
    track_key: Pubkey,
    curve_mint: Pubkey,
    base_price: u64,
    k: u64,
    tokens_per_nft: u64,
    bump: u8,
) -> (r: Result<CurveState, ErrorCode>)
    ensures
        base_price == 0 ==> r == Err::<CurveState, ErrorCode>(ErrorCode::InvalidBasePrice),
        base_price > 0 && k == 0 ==> r == Err::<CurveState, ErrorCode>(
            ErrorCode::InvalidCurveParam,
        ),
        base_price > 0 && k > 0 && tokens_per_nft == 0 ==> r == Err::<CurveState, ErrorCode>(
            ErrorCode::InvalidArgs,
        ),
        base_price > 0 && k > 0 && tokens_per_nft > 0 ==> match r {
            Ok(c) => c == (CurveState {
                track: track_key,
                mint: curve_mint,
                vault: c.vault,
                supply: 0,
                reserve: 0,
                base_price,
                k,
                tokens_per_nft,
                bump,
            }) && c.vault@ == Seq::new(32, |i: int| 0u8),
            Err(_) => false,
        },
{
    if base_price == 0 {
        return Err(ErrorCode::InvalidBasePrice);
    }
    if k == 0 {
        return Err(ErrorCode::InvalidCurveParam);
    }
    if tokens_per_nft == 0 {
        return Err(ErrorCode::InvalidArgs);
    }
    Ok(
        CurveState {
            track: track_key,
            mint: curve_mint,
            vault: Pubkey::zero(),
            supply: 0,
            reserve: 0,
            base_price,
            k,
            tokens_per_nft,
            bump,
        },
    )
}

proof fn lemma_cube_bounds_base(x: int)
    requires
        x >= 0,
        cube(x) <= u128::MAX,
    ensures
        x <= u64::MAX,
{
    if x > u64::MAX {
        assert(x * x * x > u128::MAX) by (nonlinear_arith)
            requires
                x > u64::MAX,
        ;
    }
}

/// Buys `amount` share tokens at the curve's cost: refused with
/// `InvalidAmount` for zero, `SlippageExceeded` where the exact cost is above
/// `max_lamports` (so in particular where it does not fit in `u64`),
/// `MathError` where the fee exceeds the cost, and `InvalidArgs` where
/// `share_mint` is not the curve's token mint. The cost is split into the
/// marketplace fee and the vault's part, and the supply grows by `amount`; a
/// refusal leaves the curve unchanged.
pub fn buy_tokens(
    curve: &mut CurveState,
    market: &MarketConfig,
    buyer: Pubkey,
    track_key: Pubkey,
    share_mint: Pubkey,
    amount: u64,
    max_lamports: u64,
) -> (r: Result<TokenPurchase, ErrorCode>)
    requires
        amount > 0 ==> buy_cost_fits(*old(curve), amount),
    ensures
        ({
            let cost = cost_to_buy_spec(*old(curve), amount);
            let fee = bps_fee(cost, market.fee_bps as int);
            let priced = amount > 0 && cost <= max_lamports && fee <= cost;
            let mint_ok = share_mint@ == old(curve).mint@;
            &&& amount == 0 ==> r == Err::<TokenPurchase, ErrorCode>(ErrorCode::InvalidAmount)
            &&& amount > 0 && cost > max_lamports ==> r == Err::<TokenPurchase, ErrorCode>(
                ErrorCode::SlippageExceeded,
            )
            &&& amount > 0 && cost <= max_lamports && fee > cost ==> r == Err::<
                TokenPurchase,
                ErrorCode,
            >(ErrorCode::MathError)
            &&& priced && !mint_ok ==> r == Err::<TokenPurchase, ErrorCode>(
                ErrorCode::InvalidArgs,
            )
            &&& priced && mint_ok ==> {
                &&& r == Ok::<TokenPurchase, ErrorCode>(
                    TokenPurchase {
                        cost: cost as u64,
                        fee: fee as u64,
                        vault_amount: (cost - fee) as u64,
                        event: TokensBought {
                            buyer,
                            track: track_key,
                            amount,
                            cost: cost as u64,
                            fee: fee as u64,
                            new_supply: (old(curve).supply + amount) as u64,
                        },
                    },
                )
                &&& *final(curve) == (CurveState {
                    supply: (old(curve).supply + amount) as u64,
                    ..*old(curve)
                })
            }
            &&& r is Err ==> *final(curve) == *old(curve)
        }),
{
    if amount == 0 {
        return Err(ErrorCode::InvalidAmount);
    }
    let cost = match buy_with_slippage_check(curve, amount, max_lamports) {
        Ok(c) => c,
        Err(e) => {
            return Err(e);
        },
    };
    proof {
        assert(cost * market.fee_bps <= u128::MAX) by (nonlinear_arith)
            requires
                cost <= u64::MAX,
                market.fee_bps <= u16::MAX,
        ;
    }
    let fee = marketplace_fee(cost as u128, market.fee_bps);
    let vault_amount = match cost.checked_sub(fee) {
        Some(v) => v,
        None => {
            return Err(ErrorCode::MathError);
        },
    };
    if !share_mint.same_as(&curve.mint) {
        return Err(ErrorCode::InvalidArgs);
    }
    proof {
        lemma_cube_bounds_base(curve.supply + amount);
    }
    curve.supply = curve.supply + amount;
    Ok(
        TokenPurchase {
            cost,
            fee,
            vault_amount,
            event: TokensBought {
                buyer,
                track: track_key,
                amount,
                cost,
                fee,
                new_supply: curve.supply,
            },
        },
    )
}

/// Sells `amount` share tokens back into the curve: refused with
/// `InvalidAmount` for zero, `InsufficientLiquidity` above the supply,
/// `SlippageExceeded` where the refund is below `min_lamports`, `Overflow`
/// where the refund does not fit in `u64`, `MathError` where the fee exceeds
/// the refund, and `InvalidArgs` where `share_mint` is not the curve's token
/// mint. The seller gets the refund less the marketplace fee and the supply
/// shrinks by `amount`; a refusal leaves the curve unchanged.
pub fn sell_tokens(
    curve: &mut CurveState,
    market: &MarketConfig,
    seller: Pubkey,
    track_key: Pubkey,
    share_mint: Pubkey,
    amount: u64,
    min_lamports: u128,
) -> (r: Result<TokenSale, ErrorCode>)
    requires
        0 < amount <= old(curve).supply ==> sell_refund_fits(*old(curve), amount),
    ensures
        ({
            let refund = sell_refund(
                old(curve).base_price as int,
                old(curve).k as int,
                old(curve).supply as int,
                amount as int,
            );
            let fee = bps_fee(refund, market.fee_bps as int);
            let in_range = 0 < amount <= old(curve).supply;
            let priced = in_range && refund >= min_lamports && refund <= u64::MAX && fee <= refund;
            let mint_ok = share_mint@ == old(curve).mint@;
            &&& amount == 0 ==> r == Err::<TokenSale, ErrorCode>(ErrorCode::InvalidAmount)
            &&& 0 < amount && amount > old(curve).supply ==> r == Err::<TokenSale, ErrorCode>(
                ErrorCode::InsufficientLiquidity,
            )
            &&& in_range && refund < min_lamports ==> r == Err::<TokenSale, ErrorCode>(
                ErrorCode::SlippageExceeded,
            )
            &&& in_range && refund >= min_lamports && refund > u64::MAX ==> r == Err::<
                TokenSale,
                ErrorCode,
            >(ErrorCode::Overflow)
            &&& in_range && refund >= min_lamports && refund <= u64::MAX && fee > refund ==> r
                == Err::<TokenSale, ErrorCode>(ErrorCode::MathError)
            &&& priced && !mint_ok ==> r == Err::<TokenSale, ErrorCode>(ErrorCode::InvalidArgs)
            &&& priced && mint_ok ==> {
                &&& r == Ok::<TokenSale, ErrorCode>(
                    TokenSale {
                        refund: refund as u128,
                        seller_amount: (refund - fee) as u64,
                        fee: fee as u64,
                        event: TokensSold {
                            seller,
                            track: track_key,
                            amount,
                            refund: refund as u64,
                            fee: fee as u64,
                            new_supply: (old(curve).supply - amount) as u64,
                        },
                    },
                )
                &&& *final(curve) == (CurveState {
                    supply: (old(curve).supply - amount) as u64,
                    ..*old(curve)
                })
            }
            &&& r is Err ==> *final(curve) == *old(curve)
        }),
{
    if amount == 0 {
        return Err(ErrorCode::InvalidAmount);
    }
    let refund = match refund_for_sell(curve, amount) {
        Ok(v) => v,
        Err(e) => {
            return Err(e);
        },
    };
    if refund < min_lamports {
        return Err(ErrorCode::SlippageExceeded);
    }
    if refund > u64::MAX as u128 {
        return Err(ErrorCode::Overflow);
    }
    proof {
        assert(refund * market.fee_bps <= u128::MAX) by (nonlinear_arith)
            requires
                refund <= u64::MAX,
                market.fee_bps <= u16::MAX,
        ;
    }
    let fee = marketplace_fee(refund, market.fee_bps);
    let refund64 = refund as u64;
    let seller_amount = match refund64.checked_sub(fee) {
        Some(v) => v,
        None => {
            return Err(ErrorCode::MathError);
        },
    };
    if !share_mint.same_as(&curve.mint) {
        return Err(ErrorCode::InvalidArgs);
    }
    curve.supply = curve.supply - amount;
    Ok(
        TokenSale {
            refund,
            seller_amount,
            fee,
            event: TokensSold {
                seller,
                track: track_key,
                amount,
                refund: refund64,
                fee,
                new_supply: curve.supply,
            },
        },
    )
}

/// The price of an NFT at the curve: the spot price times the tokens per
/// NFT, `None` where that price does not fit in `u64`.
pub open spec fn curve_nft_price(curve: CurveState) -> Option<int> {
    let spot = spot_price(curve.base_price as int, curve.k as int, curve.supply as int);
    let p = spot * curve.tokens_per_nft;
    if p > u64::MAX {
        None
    } else {
        Some(p)
    }
}

/// A stem NFT at curve price costs `(base_price + k * supply^2) *
/// tokens_per_nft` lamports whenever that product fits in `u64`, and is
/// refused only where it does not.
pub proof fn law_curve_nft_price_is_spot_times_tokens(curve: CurveState)
    ensures
        ({
            let price = (curve.base_price + curve.k * curve.supply * curve.supply)
                * curve.tokens_per_nft;
            &&& price <= u64::MAX ==> curve_nft_price(curve) == Some(price)
            &&& price > u64::MAX ==> curve_nft_price(curve) is None
        }),
{
}

/// Buys a stem NFT for the spot price times the tokens per NFT, moving those
/// lamports from the buyer's balance to the curve vault's; refused with
/// `Overflow` where that price does not fit in `u64`. The event carries the
/// spot price cast to `u64`.
pub fn buy_nft_with_curve_price(
    curve: &CurveState,
    buyer: Pubkey,
    track_key: Pubkey,
    stem_mint: Pubkey,
    buyer_balance: u64,
    treasury_balance: u64,
) -> (r: Result<CurveNftSale, ErrorCode>)
    requires
        spot_price_fits(*curve),
        curve_nft_price(*curve) matches Some(p) ==> p <= buyer_balance && treasury_balance + p
            <= u64::MAX,
    ensures
        match curve_nft_price(*curve) {
            None => r == Err::<CurveNftSale, ErrorCode>(ErrorCode::Overflow),
            Some(p) => r == Ok::<CurveNftSale, ErrorCode>(
                CurveNftSale {
                    price: p as u64,
                    buyer_balance: (buyer_balance - p) as u64,
                    treasury_balance: (treasury_balance + p) as u64,
                    event: NFTBoughtWithCurvePrice {
                        buyer,
                        track: track_key,
                        nft_mint: stem_mint,
                        price: p as u64,
                        spot_price: (spot_price(
                            curve.base_price as int,
                            curve.k as int,
                            curve.supply as int,
                        ) % u64_modulus()) as u64,
                    },
                },
            ),
        },
{
    let spot = current_price(curve);
    let product = match spot.checked_mul(curve.tokens_per_nft as u128) {
        Some(p) => p,
        None => {
            return Err(ErrorCode::Overflow);
        },
    };
    if product > u64::MAX as u128 {
        return Err(ErrorCode::Overflow);
    }
    let nft_price: u64 = product as u64;
    proof {
        lemma_u128_to_u64(spot);
    }
    let spot64: u64 = #[verifier::truncate] (spot as u64);
    Ok(
        CurveNftSale {
            price: nft_price,
            buyer_balance: buyer_balance - nft_price,
            treasury_balance: treasury_balance + nft_price,
            event: NFTBoughtWithCurvePrice {
                buyer,
                track: track_key,
                nft_mint: stem_mint,
                price: nft_price,
                spot_price: spot64,
            },
        },
    )
}

} // verus!
