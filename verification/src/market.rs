//! The fixed-price stem marketplace: its configuration, its listings, and
//! what a sale pays to whom.
use vstd::prelude::*;

use crate::address::Pubkey;
use crate::error::ErrorCode;
use crate::track::Track;
use crate::MIN_PRICE_LAMPORTS;

verus! {

/// The highest fee, in basis points, that a marketplace may charge.
pub const MAX_FEE_BPS: u16 = 1000;

/// One hundred percent, in basis points.
pub const BPS_DENOMINATOR: u128 = 10000;

/// The marketplace's configuration.
#[derive(Clone, Copy, Debug)]
pub struct MarketConfig {
    pub admin: Pubkey,
    pub treasury: Pubkey,
    pub fee_bps: u16,
    pub max_fee_bps: u16,
    pub default_payment_mint: Pubkey,
    pub is_paused: bool,
    pub bump: u8,
    pub treasury_bump: u8,
}

impl MarketConfig {
    /// The fee does not exceed the market's own cap.
    pub open spec fn fee_within_cap(self) -> bool {
        self.fee_bps <= self.max_fee_bps
    }
}

/// A stem NFT offered for sale at a price in lamports.
#[derive(Clone, Copy, Debug)]
pub struct Listing {
    pub seller: Pubkey,
    pub track: Pubkey,
    pub market: Pubkey,
    pub price: u64,
    pub payment_mint: Pubkey,
    pub royalty_version: u32,
    pub is_active: bool,
    pub pricing_model: u8,
    pub created_at: i64,
    pub bump: u8,
}

/// Emitted when the marketplace is set up.
#[derive(Clone, Copy, Debug)]
pub struct MarketplaceInitialized {
    pub admin: Pubkey,
    pub treasury: Pubkey,
    pub fee_bps: u16,
}

/// Emitted when the marketplace's fee or pause flag changes.
#[derive(Clone, Copy, Debug)]
pub struct MarketConfigUpdated {
    pub admin: Pubkey,
    pub new_fee_bps: Option<u16>,
    pub paused: bool,
}

/// Emitted when the admin takes fees out of the treasury.
#[derive(Clone, Copy, Debug)]
pub struct FeesWithdrawn {
    pub admin: Pubkey,
    pub amount: u64,
    pub remaining_balance: u64,
}

/// Emitted when a listed stem NFT is bought.
#[derive(Clone, Copy, Debug)]
pub struct NFTPurchased {
    pub buyer: Pubkey,
    pub seller: Pubkey,
    pub nft_mint: Pubkey,
    pub price: u64,
    pub fee: u64,
}

/// Emitted when a seller withdraws a listing.
#[derive(Clone, Copy, Debug)]
pub struct ListingCancelled {
    pub seller: Pubkey,
    pub track: Pubkey,
    pub nft_mint: Pubkey,
}

/// Emitted when a seller reprices a listing.
#[derive(Clone, Copy, Debug)]
pub struct PriceUpdated {
    pub seller: Pubkey,
    pub nft_mint: Pubkey,
    pub old_price: u64,
    pub new_price: u64,
}

/// The lamport balances after a fee withdrawal, with its event.
#[derive(Clone, Copy, Debug)]
pub struct FeeWithdrawal {
    pub treasury_balance: u64,
    pub admin_balance: u64,
    pub event: FeesWithdrawn,
}

/// How the price of a sale is split, with its event.
#[derive(Clone, Copy, Debug)]
pub struct Purchase {
    pub seller_amount: u64,
    pub fee: u64,
    pub event: NFTPurchased,
}

/// Two to the 64th: the modulus of a cast to `u64`.
pub open spec fn u64_modulus() -> int {
    0x1_0000_0000_0000_0000
}

/// Casting a `u128` to `u64` keeps its value modulo `2^64`.
pub(crate) proof fn lemma_u128_to_u64(x: u128)
    ensures
        (x as u64) as int == (x as int) % u64_modulus(),
{
    assert((x as u64) == x % 0x1_0000_0000_0000_0000) by (bit_vector);
}

/// The marketplace fee on `value` at `fee_bps` basis points, truncated to
/// `u64` as the protocol stores it.
pub open spec fn bps_fee(value: int, fee_bps: int) -> int {
    (value * fee_bps / 10000) % u64_modulus()
}

/// The fee on `value` at `fee_bps` basis points:
/// `(value * fee_bps / 10000)` cast to `u64`.
pub fn marketplace_fee(value: u128, fee_bps: u16) -> (r: u64)
    requires
        value * fee_bps <= u128::MAX,
    ensures
        r as int == bps_fee(value as int, fee_bps as int),
{
    let fee = value * (fee_bps as u128) / BPS_DENOMINATOR;
    proof {
        lemma_u128_to_u64(fee);
    }
    #[verifier::truncate]
    (fee as u64)
}

/// Sets up the marketplace with `fee_bps` (at most 10%) and a cap of 10%.
/// Refused with `FeeTooHigh` above the cap and with `MarketPaused` where the
/// account is already paused; a refusal leaves `market` unchanged.
pub fn initialize_market(
    market: &mut MarketConfig,
    admin: Pubkey,
    treasury: Pubkey,
    fee_bps: u16,
    default_payment_mint: Pubkey,
    bump: u8,
    treasury_bump: u8,
) -> (r: Result<MarketplaceInitialized, ErrorCode>)
    ensures
        fee_bps > 1000 ==> r == Err::<MarketplaceInitialized, ErrorCode>(
            ErrorCode::FeeTooHigh,
        ),
        fee_bps <= 1000 && old(market).is_paused ==> r == Err::<
            MarketplaceInitialized,
            ErrorCode,
        >(ErrorCode::MarketPaused),
        r is Err ==> *final(market) == *old(market),
        fee_bps <= 1000 && !old(market).is_paused ==> {
            &&& r is Ok
            &&& *final(market) == MarketConfig {
                admin,
                treasury,
                fee_bps,
                max_fee_bps: 1000,
                default_payment_mint,
                is_paused: false,
                bump,
                treasury_bump,
            }
            &&& r->Ok_0 == MarketplaceInitialized { admin, treasury, fee_bps }
        },
        r is Ok ==> final(market).fee_within_cap(),
{
    if fee_bps > MAX_FEE_BPS {
        return Err(ErrorCode::FeeTooHigh);
    }
    if market.is_paused {
        return Err(ErrorCode::MarketPaused);
    }
    market.admin = admin;
    market.treasury = treasury;
    market.fee_bps = fee_bps;
    market.max_fee_bps = MAX_FEE_BPS;
    market.default_payment_mint = default_payment_mint;
    market.is_paused = false;
    market.bump = bump;
    market.treasury_bump = treasury_bump;
    Ok(MarketplaceInitialized { admin: market.admin, treasury: market.treasury, fee_bps })
}

/// Changes the fee and/or the pause flag. A paused market only accepts a
/// call that sets the pause flag (`MarketPaused` otherwise); a fee above the
/// market's cap is refused with `FeeTooHigh`. A refusal leaves `market`
/// unchanged, and a market whose fee is within its cap stays so.
pub fn update_market_config(
    market: &mut MarketConfig,
    admin: Pubkey,
    new_fee_bps: Option<u16>,
    pause: Option<bool>,
) -> (r: Result<MarketConfigUpdated, ErrorCode>)
    ensures
        old(market).is_paused && pause is None ==> r == Err::<MarketConfigUpdated, ErrorCode>(
            ErrorCode::MarketPaused,
        ),
        !(old(market).is_paused && pause is None) && new_fee_bps is Some && new_fee_bps->0
            > old(market).max_fee_bps ==> r == Err::<MarketConfigUpdated, ErrorCode>(
            ErrorCode::FeeTooHigh,
        ),
        r is Err ==> *final(market) == *old(market),
        !(old(market).is_paused && pause is None) && !(new_fee_bps is Some && new_fee_bps->0
            > old(market).max_fee_bps) ==> {
            let fee = match new_fee_bps {
                Some(f) => f,
                None => old(market).fee_bps,
            };
            let paused = match pause {
                Some(p) => p,
                None => old(market).is_paused,
            };
            &&& *final(market) == (MarketConfig { fee_bps: fee, is_paused: paused, ..*old(market) })
            &&& r == Ok::<MarketConfigUpdated, ErrorCode>(
                MarketConfigUpdated { admin, new_fee_bps, paused },
            )
        },
        old(market).fee_within_cap() ==> final(market).fee_within_cap(),
{
    if market.is_paused && pause.is_none() {
        return Err(ErrorCode::MarketPaused);
    }
    if let Some(fee) = new_fee_bps {
        if fee > market.max_fee_bps {
            return Err(ErrorCode::FeeTooHigh);
        }
        market.fee_bps = fee;
    }
    if let Some(p) = pause {
        market.is_paused = p;
    }
    Ok(MarketConfigUpdated { admin, new_fee_bps, paused: market.is_paused })
}

/// The part of the treasury's balance above its rent-exempt minimum.
pub open spec fn withdrawable(treasury_balance: int, rent_exempt: int) -> int {
    if treasury_balance >= rent_exempt {
        treasury_balance - rent_exempt
    } else {
        0
    }
}

/// Moves `amount` lamports from the treasury to the admin, refused with
/// `InsufficientFunds` where it is more than the treasury holds above its
/// rent-exempt minimum.
pub fn withdraw_marketplace_fees(
    treasury_balance: u64,
    rent_exempt: u64,
    admin_balance: u64,
    admin: Pubkey,
    amount: u64,
) -> (r: Result<FeeWithdrawal, ErrorCode>)
    requires
        amount <= withdrawable(treasury_balance as int, rent_exempt as int) ==> admin_balance
            + amount <= u64::MAX,
    ensures
        amount > withdrawable(treasury_balance as int, rent_exempt as int) ==> r == Err::<
            FeeWithdrawal,
            ErrorCode,
        >(ErrorCode::InsufficientFunds),
        amount <= withdrawable(treasury_balance as int, rent_exempt as int) ==> r == Ok::<
            FeeWithdrawal,
            ErrorCode,
        >(
            FeeWithdrawal {
                treasury_balance: (treasury_balance - amount) as u64,
                admin_balance: (admin_balance + amount) as u64,
                event: FeesWithdrawn {
                    admin,
                    amount,
                    remaining_balance: (treasury_balance - amount) as u64,
                },
            },
        ),
{
    let available = match treasury_balance.checked_sub(rent_exempt) {
        Some(a) => a,
        None => 0,
    };
    if amount > available {
        return Err(ErrorCode::InsufficientFunds);
    }
    let treasury_after = treasury_balance - amount;
    let admin_after = admin_balance + amount;
    Ok(
        FeeWithdrawal {
            treasury_balance: treasury_after,
            admin_balance: admin_after,
            event: FeesWithdrawn { admin, amount, remaining_balance: treasury_balance - amount },
        },
    )
}

/// The listing that a seller opens for a track at `price`, paid in SOL, as
/// a fixed-price listing that records the track's current royalty version.
pub fn list_track(
    seller: Pubkey,
    track_key: Pubkey,
    track: &Track,
    market_key: Pubkey,
    price: u64,
    created_at: i64,
    bump: u8,
) -> (r: Listing)
    ensures
        r == (Listing {
            seller,
            track: track_key,
            market: market_key,
            price,
            payment_mint: r.payment_mint,
            royalty_version: track.royalty_version,
            is_active: true,
            pricing_model: 0,
            created_at,
            bump,
        }),
        r.payment_mint@ == Seq::new(32, |i: int| 0u8),
{
    Listing {
        seller,
        track: track_key,
        market: market_key,
        price,
        payment_mint: Pubkey::zero(),
        royalty_version: track.royalty_version,
        is_active: true,
        pricing_model: 0,
        created_at,
        bump,
    }
}

/// Sells a listed stem NFT to `buyer`: the price goes to the seller less the
/// marketplace fee, which goes to the treasury, and the listing closes.
/// Refused with `ListingInactive` for a closed listing, `InvalidArgs` where
/// the fee would go to an account other than the market's treasury,
/// `InvalidAmount` where
/// the seller's token account holds no NFT, `MarketPaused` while the market
/// is paused, `SelfPurchase` where the buyer is the seller, and `MathError`
/// where the fee exceeds the price; a refusal leaves `listing` unchanged.
pub fn buy_track(
    listing: &mut Listing,
    market: &MarketConfig,
    buyer: Pubkey,
    treasury: Pubkey,
    seller_nft_amount: u64,
    nft_mint: Pubkey,
) -> (r: Result<Purchase, ErrorCode>)
    ensures
        ({
            let price = old(listing).price;
            let fee = bps_fee(price as int, market.fee_bps as int);
            let to_treasury = treasury@ == market.treasury@;
            let open = old(listing).is_active && to_treasury && seller_nft_amount >= 1;
            &&& !old(listing).is_active ==> r == Err::<Purchase, ErrorCode>(
                ErrorCode::ListingInactive,
            )
            &&& old(listing).is_active && !to_treasury ==> r == Err::<Purchase, ErrorCode>(
                ErrorCode::InvalidArgs,
            )
            &&& old(listing).is_active && to_treasury && seller_nft_amount < 1 ==> r == Err::<
                Purchase,
                ErrorCode,
            >(ErrorCode::InvalidAmount)
            &&& open && market.is_paused ==> r == Err::<Purchase, ErrorCode>(
                ErrorCode::MarketPaused,
            )
            &&& open && !market.is_paused && buyer@ == old(listing).seller@ ==> r == Err::<
                Purchase,
                ErrorCode,
            >(ErrorCode::SelfPurchase)
            &&& open && !market.is_paused && buyer@ != old(listing).seller@ && fee > price ==> r
                == Err::<Purchase, ErrorCode>(ErrorCode::MathError)
            &&& open && !market.is_paused && buyer@ != old(listing).seller@ && fee <= price ==> {
                &&& r == Ok::<Purchase, ErrorCode>(
                    Purchase {
                        seller_amount: (price - fee) as u64,
                        fee: fee as u64,
                        event: NFTPurchased {
                            buyer,
                            seller: old(listing).seller,
                            nft_mint,
                            price,
                            fee: fee as u64,
                        },
                    },
                )
                &&& *final(listing) == (Listing { is_active: false, ..*old(listing) })
            }
            &&& r is Err ==> *final(listing) == *old(listing)
        }),
{
    if !listing.is_active {
        return Err(ErrorCode::ListingInactive);
    }
    if !treasury.same_as(&market.treasury) {
        return Err(ErrorCode::InvalidArgs);
    }
    if seller_nft_amount < 1 {
        return Err(ErrorCode::InvalidAmount);
    }
    if market.is_paused {
        return Err(ErrorCode::MarketPaused);
    }
    let price = listing.price;
    if buyer.same_as(&listing.seller) {
        return Err(ErrorCode::SelfPurchase);
    }
    proof {
        assert(price * market.fee_bps <= u128::MAX) by (nonlinear_arith)
            requires
                price <= u64::MAX,
                market.fee_bps <= u16::MAX,
        ;
    }
    let fee = marketplace_fee(price as u128, market.fee_bps);
    let seller_amount = match price.checked_sub(fee) {
        Some(a) => a,
        None => {
            return Err(ErrorCode::MathError);
        },
    };
    listing.is_active = false;
    Ok(
        Purchase {
            seller_amount,
            fee,
            event: NFTPurchased { buyer, seller: listing.seller, nft_mint, price, fee },
        },
    )
}

/// Closes an active listing; refused with `ListingInactive` otherwise,
/// leaving it unchanged.
pub fn cancel_listing(
    listing: &mut Listing,
    track_key: Pubkey,
    nft_mint: Pubkey,
) -> (r: Result<ListingCancelled, ErrorCode>)
    ensures
        !old(listing).is_active ==> r == Err::<ListingCancelled, ErrorCode>(
            ErrorCode::ListingInactive,
        ) && *final(listing) == *old(listing),
        old(listing).is_active ==> r == Ok::<ListingCancelled, ErrorCode>(
            ListingCancelled { seller: old(listing).seller, track: track_key, nft_mint },
        ) && *final(listing) == (Listing { is_active: false, ..*old(listing) }),
{
    if !listing.is_active {
        return Err(ErrorCode::ListingInactive);
    }
    listing.is_active = false;
    Ok(ListingCancelled { seller: listing.seller, track: track_key, nft_mint })
}

/// Reprices an active fixed-price listing. Refused with `ListingInactive`,
/// `NotFixedPrice`, `InvalidPrice` (zero) or `PriceTooLow` (below the
/// minimum), in that order, leaving it unchanged. The event records the
/// price before and after.
pub fn update_price(
    listing: &mut Listing,
    nft_mint: Pubkey,
    new_price: u64,
) -> (r: Result<PriceUpdated, ErrorCode>)
    ensures
        !old(listing).is_active ==> r == Err::<PriceUpdated, ErrorCode>(
            ErrorCode::ListingInactive,
        ),
        old(listing).is_active && old(listing).pricing_model != 0 ==> r == Err::<
            PriceUpdated,
            ErrorCode,
        >(ErrorCode::NotFixedPrice),
        old(listing).is_active && old(listing).pricing_model == 0 && new_price == 0 ==> r
            == Err::<PriceUpdated, ErrorCode>(ErrorCode::InvalidPrice),
        old(listing).is_active && old(listing).pricing_model == 0 && 0 < new_price
            < 1_000_000 ==> r == Err::<PriceUpdated, ErrorCode>(ErrorCode::PriceTooLow),
        r is Err ==> *final(listing) == *old(listing),
        old(listing).is_active && old(listing).pricing_model == 0 && new_price
            >= 1_000_000 ==> r == Ok::<PriceUpdated, ErrorCode>(
            PriceUpdated {
                seller: old(listing).seller,
                nft_mint,
                old_price: old(listing).price,
                new_price,
            },
        ) && *final(listing) == (Listing { price: new_price, ..*old(listing) }),
{
    if !listing.is_active {
        return Err(ErrorCode::ListingInactive);
    }
    if listing.pricing_model != 0 {
        return Err(ErrorCode::NotFixedPrice);
    }
    if new_price == 0 {
        return Err(ErrorCode::InvalidPrice);
    }
    if new_price < MIN_PRICE_LAMPORTS {
        return Err(ErrorCode::PriceTooLow);
    }
    let old_price = listing.price;
    listing.price = new_price;
    Ok(PriceUpdated { seller: listing.seller, nft_mint, old_price, new_price })
}

/// At a fee of at most 100%, the fee on a price is that price times the fee
/// in basis points over 10000, rounded down; it never exceeds the price, so
/// the seller's part and the fee add up to the price; at the marketplace's
/// cap of 1000 basis points (10%) the fee is at most a tenth of the price.
pub proof fn law_sale_split(price: u64, fee_bps: u16)
    requires
        fee_bps <= 10000,
    ensures
        bps_fee(price as int, fee_bps as int) * 10000 <= price * fee_bps,
        price * fee_bps < bps_fee(price as int, fee_bps as int) * 10000 + 10000,
        0 <= bps_fee(price as int, fee_bps as int) <= price,
        (price - bps_fee(price as int, fee_bps as int)) + bps_fee(price as int, fee_bps as int)
            == price,
        fee_bps <= 1000 ==> bps_fee(price as int, fee_bps as int) * 10 <= price,
{
    let p = price as int;
    let b = fee_bps as int;
    assert(0 <= p * b <= p * 10000) by (nonlinear_arith)
        requires
            0 <= p,
            0 <= b <= 10000,
    ;
    assert(p * b / 10000 <= p) by (nonlinear_arith)
        requires
            0 <= p * b <= p * 10000,
            0 <= p,
    ;
    assert(p * b / 10000 >= 0) by (nonlinear_arith)
        requires
            0 <= p * b,
    ;
    assert(bps_fee(p, b) == p * b / 10000);
    let q = p * b / 10000;
    assert(q * 10000 <= p * b < q * 10000 + 10000) by (nonlinear_arith)
        requires
            q == p * b / 10000,
            p * b >= 0,
    ;
    if b <= 1000 {
        assert((p * b / 10000) * 10 <= p) by (nonlinear_arith)
            requires
                0 <= p,
                0 <= b <= 1000,
        ;
    }
}

/// The admin may take out any amount that leaves the treasury at or above
/// its rent-exempt minimum, and no more: a positive `amount` is withdrawable
/// exactly when `treasury_balance - amount >= rent_exempt`.
pub proof fn law_withdrawal_keeps_rent_exempt_minimum(
    treasury_balance: u64,
    rent_exempt: u64,
    amount: u64,
)
    ensures
        amount > 0 ==> (amount <= withdrawable(treasury_balance as int, rent_exempt as int) <==> (
        treasury_balance - amount >= rent_exempt)),
        withdrawable(treasury_balance as int, rent_exempt as int) >= 0,
        withdrawable(treasury_balance as int, rent_exempt as int) <= treasury_balance,
{
}

} // verus!
