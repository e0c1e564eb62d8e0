use muzica::curve::{
    buy_with_slippage_check, cost_to_buy, current_price, refund_for_sell,
    sell_with_slippage_check, CurveState,
};
use muzica::market::{MarketConfig, MAX_FEE_BPS};
use muzica::trading::{
    buy_nft_with_curve_price, buy_tokens, initialize_curve_for_track, sell_tokens,
};
use muzica::{ErrorCode, Pubkey};

fn key(n: u8) -> Pubkey {
    Pubkey::new_from_array([n; 32])
}

fn curve(base_price: u64, k: u64, supply: u64, tokens_per_nft: u64) -> CurveState {
    CurveState {
        track: key(1),
        mint: key(2),
        vault: Pubkey::zero(),
        supply,
        reserve: 0,
        base_price,
        k,
        tokens_per_nft,
        bump: 254,
    }
}

fn market(fee_bps: u16) -> MarketConfig {
    MarketConfig {
        admin: key(9),
        treasury: key(8),
        fee_bps,
        max_fee_bps: MAX_FEE_BPS,
        default_payment_mint: Pubkey::zero(),
        is_paused: false,
        bump: 1,
        treasury_bump: 2,
    }
}

#[test]
fn spot_price_is_base_plus_k_supply_squared() {
    assert_eq!(current_price(&curve(100, 2, 10, 1)), 300);
    assert_eq!(current_price(&curve(100, 2, 0, 1)), 100);
}

#[test]
fn cost_from_empty_curve() {
    // 100 * 10 + 3 * (10^3 - 0) / 3
    assert_eq!(cost_to_buy(&curve(100, 3, 0, 1), 10), 2000);
}

#[test]
fn cost_rounds_the_curve_term_down() {
    // 7 * 5 + floor(2 * (15^3 - 10^3) / 3) = 35 + 1583
    assert_eq!(cost_to_buy(&curve(7, 2, 10, 1), 5), 1618);
}

#[test]
fn cost_of_nothing_is_nothing() {
    assert_eq!(cost_to_buy(&curve(7, 2, 10, 1), 0), 0);
}

#[test]
fn cost_above_u64_is_refused_by_slippage() {
    // exact cost 2^66 + 2^22 does not fit in u64, so no bound admits it
    let c = curve(1, 3, 0, 1);
    assert_eq!(
        buy_with_slippage_check(&c, 1 << 22, u64::MAX),
        Err(ErrorCode::SlippageExceeded)
    );
    let mut c2 = c;
    assert_eq!(
        buy_tokens(&mut c2, &market(100), key(5), key(1), key(2), 1 << 22, u64::MAX).err(),
        Some(ErrorCode::SlippageExceeded)
    );
    assert_eq!(c2.supply, 0);
}

#[test]
fn largest_cost_that_fits() {
    let c = curve(u64::MAX, 0, 0, 1);
    assert_eq!(cost_to_buy(&c, 1), u64::MAX);
    assert_eq!(buy_with_slippage_check(&c, 1, u64::MAX), Ok(u64::MAX));
}

#[test]
fn buying_in_two_steps_costs_the_same_up_to_a_lamport() {
    for s in 0..12u64 {
        for a in 0..12u64 {
            for b in 0..12u64 {
                let one = cost_to_buy(&curve(13, 7, s, 1), a + b);
                let two = cost_to_buy(&curve(13, 7, s, 1), a) + cost_to_buy(&curve(13, 7, s + a, 1), b);
                assert!(two <= one && one <= two + 1);
            }
        }
    }
}

#[test]
fn refund_after_buy_equals_cost() {
    let before = curve(7, 2, 10, 1);
    let cost = cost_to_buy(&before, 5);
    let after = curve(7, 2, 15, 1);
    assert_eq!(refund_for_sell(&after, 5), Ok(cost as u128));
    assert_eq!(refund_for_sell(&after, 5), Ok(1618));
}

#[test]
fn refund_refused_above_supply() {
    assert_eq!(refund_for_sell(&curve(7, 2, 4, 1), 5), Err(ErrorCode::InsufficientLiquidity));
}

#[test]
fn refund_with_saturated_cubes_is_base_only() {
    // both cubes saturate at u128::MAX, so the curve term vanishes
    assert_eq!(refund_for_sell(&curve(5, 9, 1 << 60, 1), 1), Ok(5));
}

#[test]
fn slippage_on_buy() {
    let c = curve(100, 3, 0, 1);
    assert_eq!(buy_with_slippage_check(&c, 10, 2000), Ok(2000));
    assert_eq!(buy_with_slippage_check(&c, 10, 1999), Err(ErrorCode::SlippageExceeded));
}

#[test]
fn slippage_on_sell() {
    let c = curve(100, 3, 10, 1);
    assert_eq!(sell_with_slippage_check(&c, 10, 2000), Ok(2000));
    assert_eq!(sell_with_slippage_check(&c, 10, 2001), Err(ErrorCode::SlippageExceeded));
    assert_eq!(sell_with_slippage_check(&c, 11, 0), Err(ErrorCode::InsufficientLiquidity));
}

#[test]
fn spot_price_grows_with_supply() {
    let mut last = 0u128;
    for s in 0..50u64 {
        let p = current_price(&curve(3, 7, s, 1));
        assert!(p >= last);
        last = p;
    }
}

#[test]
fn cost_lies_between_spot_prices() {
    for s in 0..20u64 {
        for d in 0..20u64 {
            let c = curve(11, 5, s, 1);
            let cost = cost_to_buy(&c, d) as u128;
            let low = d as u128 * current_price(&c);
            let high = d as u128 * current_price(&curve(11, 5, s + d, 1));
            assert!(low <= cost && cost <= high);
        }
    }
}

#[test]
fn curve_initialization_and_its_refusals() {
    let c = initialize_curve_for_track(key(1), key(2), 100, 3, 1000, 7).unwrap();
    assert_eq!(c.supply, 0);
    assert_eq!(c.reserve, 0);
    assert_eq!(c.base_price, 100);
    assert_eq!(c.k, 3);
    assert_eq!(c.tokens_per_nft, 1000);
    assert_eq!(c.bump, 7);
    assert_eq!(c.vault.to_bytes(), [0u8; 32]);
    assert!(c.track.same_as(&key(1)));
    assert!(c.mint.same_as(&key(2)));
    assert_eq!(
        initialize_curve_for_track(key(1), key(2), 0, 3, 1, 7).err(),
        Some(ErrorCode::InvalidBasePrice)
    );
    assert_eq!(
        initialize_curve_for_track(key(1), key(2), 1, 0, 1, 7).err(),
        Some(ErrorCode::InvalidCurveParam)
    );
    assert_eq!(
        initialize_curve_for_track(key(1), key(2), 1, 3, 0, 7).err(),
        Some(ErrorCode::InvalidArgs)
    );
}

#[test]
fn buy_tokens_splits_cost_and_grows_supply() {
    let mut c = curve(100, 3, 0, 1);
    let p = buy_tokens(&mut c, &market(100), key(5), key(1), key(2), 10, 5000).unwrap();
    assert_eq!(p.cost, 2000);
    assert_eq!(p.fee, 20);
    assert_eq!(p.vault_amount, 1980);
    assert_eq!(p.event.new_supply, 10);
    assert_eq!(p.event.amount, 10);
    assert_eq!(c.supply, 10);
}

#[test]
fn buy_tokens_refusals_leave_curve_unchanged() {
    let mut c = curve(100, 3, 0, 1);
    assert_eq!(
        buy_tokens(&mut c, &market(100), key(5), key(1), key(2), 0, 5000).err(),
        Some(ErrorCode::InvalidAmount)
    );
    assert_eq!(
        buy_tokens(&mut c, &market(100), key(5), key(1), key(2), 10, 1999).err(),
        Some(ErrorCode::SlippageExceeded)
    );
    assert_eq!(
        buy_tokens(&mut c, &market(20000), key(5), key(1), key(2), 10, 5000).err(),
        Some(ErrorCode::MathError)
    );
    assert_eq!(c.supply, 0);
}

#[test]
fn trades_in_another_mint_are_refused() {
    let mut c = curve(100, 3, 10, 1);
    assert_eq!(
        buy_tokens(&mut c, &market(100), key(5), key(1), key(3), 10, 8000).err(),
        Some(ErrorCode::InvalidArgs)
    );
    assert_eq!(
        sell_tokens(&mut c, &market(100), key(5), key(1), key(3), 10, 0).err(),
        Some(ErrorCode::InvalidArgs)
    );
    assert_eq!(c.supply, 10);
}

#[test]
fn mint_check_comes_after_amount_and_price_checks() {
    let mut c = curve(100, 3, 10, 1);
    assert_eq!(
        buy_tokens(&mut c, &market(100), key(5), key(1), key(3), 0, 5000).err(),
        Some(ErrorCode::InvalidAmount)
    );
    assert_eq!(
        buy_tokens(&mut c, &market(100), key(5), key(1), key(3), 10, 1).err(),
        Some(ErrorCode::SlippageExceeded)
    );
    assert_eq!(
        buy_tokens(&mut c, &market(20000), key(5), key(1), key(3), 10, u64::MAX).err(),
        Some(ErrorCode::MathError)
    );
    assert_eq!(
        sell_tokens(&mut c, &market(100), key(5), key(1), key(3), 0, 0).err(),
        Some(ErrorCode::InvalidAmount)
    );
    assert_eq!(
        sell_tokens(&mut c, &market(100), key(5), key(1), key(3), 11, 0).err(),
        Some(ErrorCode::InsufficientLiquidity)
    );
    assert_eq!(
        sell_tokens(&mut c, &market(100), key(5), key(1), key(3), 10, u128::MAX).err(),
        Some(ErrorCode::SlippageExceeded)
    );
    assert_eq!(
        sell_tokens(&mut c, &market(20000), key(5), key(1), key(3), 10, 0).err(),
        Some(ErrorCode::MathError)
    );
    assert_eq!(c.supply, 10);
}

#[test]
fn buy_then_sell_round_trip() {
    let mut c = curve(100, 3, 0, 1);
    let bought = buy_tokens(&mut c, &market(100), key(5), key(1), key(2), 10, 5000).unwrap();
    let sold = sell_tokens(&mut c, &market(100), key(5), key(1), key(2), 10, 0).unwrap();
    assert_eq!(sold.refund, bought.cost as u128);
    assert_eq!(sold.fee, 20);
    assert_eq!(sold.seller_amount, 1980);
    assert_eq!(sold.event.refund, 2000);
    assert_eq!(sold.event.new_supply, 0);
    assert_eq!(c.supply, 0);
}

#[test]
fn sell_tokens_refusals_leave_curve_unchanged() {
    let mut c = curve(100, 3, 10, 1);
    assert_eq!(
        sell_tokens(&mut c, &market(100), key(5), key(1), key(2), 0, 0).err(),
        Some(ErrorCode::InvalidAmount)
    );
    assert_eq!(
        sell_tokens(&mut c, &market(100), key(5), key(1), key(2), 11, 0).err(),
        Some(ErrorCode::InsufficientLiquidity)
    );
    assert_eq!(
        sell_tokens(&mut c, &market(100), key(5), key(1), key(2), 10, 2001).err(),
        Some(ErrorCode::SlippageExceeded)
    );
    assert_eq!(
        sell_tokens(&mut c, &market(20000), key(5), key(1), key(2), 10, 0).err(),
        Some(ErrorCode::MathError)
    );
    assert_eq!(c.supply, 10);
}

#[test]
fn nft_at_curve_price() {
    let c = curve(100, 2, 10, 5);
    let sale = buy_nft_with_curve_price(&c, key(5), key(1), key(6), 10_000, 50).unwrap();
    assert_eq!(sale.price, 1500);
    assert_eq!(sale.buyer_balance, 8500);
    assert_eq!(sale.treasury_balance, 1550);
    assert_eq!(sale.event.spot_price, 300);
    assert_eq!(sale.event.price, 1500);
}

#[test]
fn nft_price_above_u64_is_refused() {
    // spot 2^63 times two tokens per NFT is 2^64
    let c = curve(1 << 63, 1, 0, 2);
    assert_eq!(
        buy_nft_with_curve_price(&c, key(5), key(1), key(6), 0, 0).err(),
        Some(ErrorCode::Overflow)
    );
    // spot 1 + 2^64 with one token per NFT does not fit either
    let c = curve(1, 1, 1 << 32, 1);
    assert_eq!(
        buy_nft_with_curve_price(&c, key(5), key(1), key(6), 0, 0).err(),
        Some(ErrorCode::Overflow)
    );
}

#[test]
fn nft_with_no_tokens_per_nft_is_free_whatever_the_spot() {
    // spot 1 + 2^64 times zero is zero; the event keeps the spot cast to u64
    let c = curve(1, 1, 1 << 32, 0);
    let sale = buy_nft_with_curve_price(&c, key(5), key(1), key(6), 7, 9).unwrap();
    assert_eq!(sale.price, 0);
    assert_eq!(sale.buyer_balance, 7);
    assert_eq!(sale.treasury_balance, 9);
    assert_eq!(sale.event.spot_price, 1);
}

#[test]
fn sale_refund_above_u64_is_refused() {
    let mut c = curve(1, 3, 1 << 22, 1);
    assert_eq!(refund_for_sell(&c, 1 << 22), Ok((1u128 << 66) + (1 << 22)));
    assert_eq!(
        sell_tokens(&mut c, &market(100), key(5), key(1), key(2), 1 << 22, 0).err(),
        Some(ErrorCode::Overflow)
    );
    assert_eq!(c.supply, 1 << 22);
}

#[test]
fn nft_price_overflow_is_refused() {
    let c = curve(u64::MAX, u64::MAX, 1 << 31, 8);
    assert_eq!(
        buy_nft_with_curve_price(&c, key(5), key(1), key(6), 0, 0).err(),
        Some(ErrorCode::Overflow)
    );
}
