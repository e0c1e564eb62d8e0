//! The quadratic bonding curve `P(s) = base_price + k * s^2` that prices a
//! track's share tokens, and the integral of it that buyers pay and sellers
//! get back.
use vstd::prelude::*;

use crate::address::Pubkey;
use crate::error::ErrorCode;

verus! {

/// The state of one track's bonding curve.
#[derive(Clone, Copy, Debug)]
pub struct CurveState {
    pub track: Pubkey,
    pub mint: Pubkey,
    pub vault: Pubkey,
    pub supply: u64,
    pub reserve: u64,
    pub base_price: u64,
    pub k: u64,
    pub tokens_per_nft: u64,
    pub bump: u8,
}

/// `x` cubed.
pub open spec fn cube(x: int) -> int {
    x * x * x
}

/// `x` cubed, saturated at `u128::MAX`.
pub open spec fn saturating_cube(x: int) -> int {
    if cube(x) > u128::MAX {
        u128::MAX as int
    } else {
        cube(x)
    }
}

/// Spot price at supply `s`: `base + k * s^2`.
pub open spec fn spot_price(base: int, k: int, s: int) -> int {
    base + k * s * s
}

/// Lamports to move supply from `s` to `s + d`:
/// `base * d + floor(k * ((s + d)^3 - s^3) / 3)`.
pub open spec fn buy_cost(base: int, k: int, s: int, d: int) -> int {
    base * d + (k * (cube(s + d) - cube(s))) / 3
}

/// Lamports paid back for moving supply from `s` down to `s - d`, where each
/// cube saturates at `u128::MAX`.
pub open spec fn sell_refund(base: int, k: int, s: int, d: int) -> int {
    base * d + (k * (saturating_cube(s) - saturating_cube(s - d))) / 3
}

/// Whether computing the spot price of `curve` stays within `u128`.
pub open spec fn spot_price_fits(curve: CurveState) -> bool {
    spot_price(curve.base_price as int, curve.k as int, curve.supply as int) <= u128::MAX
}

/// Whether every intermediate of the cost of buying `amount` from `curve`
/// stays within `u128`.
pub open spec fn buy_cost_fits(curve: CurveState, amount: u64) -> bool {
    let s = curve.supply as int;
    let d = amount as int;
    &&& cube(s + d) <= u128::MAX
    &&& curve.k * (cube(s + d) - cube(s)) <= u128::MAX
    &&& buy_cost(curve.base_price as int, curve.k as int, s, d) <= u128::MAX
}

/// Whether every intermediate of the refund for selling `amount` back into
/// `curve` stays within `u128` (only asked where `amount <= supply`).
pub open spec fn sell_refund_fits(curve: CurveState, amount: u64) -> bool {
    let s = curve.supply as int;
    let d = amount as int;
    &&& curve.k * (saturating_cube(s) - saturating_cube(s - d)) <= u128::MAX
    &&& sell_refund(curve.base_price as int, curve.k as int, s, d) <= u128::MAX
}

/// The exact lamports to buy `amount` tokens from `curve`.
pub open spec fn cost_to_buy_spec(curve: CurveState, amount: u64) -> int {
    buy_cost(curve.base_price as int, curve.k as int, curve.supply as int, amount as int)
}

/// The value of `refund_for_sell`.
pub open spec fn refund_for_sell_spec(curve: CurveState, amount: u64) -> Result<int, ErrorCode> {
    if amount > curve.supply {
        Err(ErrorCode::InsufficientLiquidity)
    } else {
        Ok(sell_refund(curve.base_price as int, curve.k as int, curve.supply as int, amount as int))
    }
}

proof fn lemma_product_of_u64s(a: int, b: int)
    requires
        0 <= a <= u64::MAX,
        0 <= b <= u64::MAX,
    ensures
        0 <= a * b <= u128::MAX,
{
    assert(0 <= a * b <= u64::MAX * u64::MAX) by (nonlinear_arith)
        requires
            0 <= a <= u64::MAX,
            0 <= b <= u64::MAX,
    ;
}

proof fn lemma_cube_monotonic(x: int, y: int)
    requires
        0 <= x <= y,
    ensures
        0 <= x * x <= y * y,
        0 <= cube(x) <= cube(y),
        x * x <= cube(y) || y == 0,
{
    assert(0 <= x * x <= y * y) by (nonlinear_arith)
        requires
            0 <= x <= y,
    ;
    assert(0 <= x * x * x <= y * y * y) by (nonlinear_arith)
        requires
            0 <= x <= y,
            0 <= x * x <= y * y,
    ;
    assert(y >= 1 ==> y * y <= y * y * y) by (nonlinear_arith)
        requires
            y >= 0,
    ;
}

proof fn lemma_scaled_nonnegative(k: int, a: int, b: int)
    requires
        k >= 0,
        a <= b,
    ensures
        k * (b - a) >= 0,
        k * (b - a) / 3 <= k * (b - a),
{
    assert(k * (b - a) >= 0) by (nonlinear_arith)
        requires
            k >= 0,
            a <= b,
    ;
}

/// Whether the spot price of `curve` can be computed without overflowing.
pub fn spot_price_computable(curve: &CurveState) -> (r: bool)
    ensures
        r == spot_price_fits(*curve),
{
    let s = curve.supply as u128;
    proof {
        lemma_product_of_u64s(curve.k as int, s as int);
    }
    let ks = curve.k as u128 * s;
    match ks.checked_mul(s) {
        Some(kss) => kss.checked_add(curve.base_price as u128).is_some(),
        None => false,
    }
}

/// Whether the cost of buying `amount` from `curve` can be computed without
/// overflowing.
pub fn buy_cost_computable(curve: &CurveState, amount: u64) -> (r: bool)
    ensures
        r == buy_cost_fits(*curve, amount),
{
    let s = curve.supply as u128;
    let d = amount as u128;
    let sd = s + d;
    proof {
        lemma_product_of_u64s(curve.base_price as int, d as int);
        lemma_cube_monotonic(s as int, sd as int);
        lemma_cube_monotonic(sd as int, sd as int);
    }
    if sd > u64::MAX as u128 {
        proof {
            assert(sd * sd * sd > u128::MAX) by (nonlinear_arith)
                requires
                    sd > u64::MAX,
            ;
        }
        return false;
    }
    proof {
        lemma_product_of_u64s(sd as int, sd as int);
    }
    let sd2 = sd * sd;
    let new = match sd2.checked_mul(sd) {
        Some(c) => c,
        None => {
            return false;
        },
    };
    let old = s * s * s;
    let scaled = match (curve.k as u128).checked_mul(new - old) {
        Some(v) => v,
        None => {
            return false;
        },
    };
    (curve.base_price as u128 * d).checked_add(scaled / 3).is_some()
}

/// Whether the refund for selling `amount` into `curve` can be computed
/// without overflowing (true where `amount` exceeds the supply, which is
/// refused before any arithmetic).
pub fn sell_refund_computable(curve: &CurveState, amount: u64) -> (r: bool)
    ensures
        r == (amount <= curve.supply ==> sell_refund_fits(*curve, amount)),
{
    if amount > curve.supply {
        return true;
    }
    let s = curve.supply as u128;
    let d = amount as u128;
    proof {
        lemma_product_of_u64s(curve.base_price as int, d as int);
        lemma_cube_monotonic((s - d) as int, s as int);
    }
    let new = saturating_cube_u128(s);
    let old = saturating_cube_u128(s - d);
    let scaled = match (curve.k as u128).checked_mul(new - old) {
        Some(v) => v,
        None => {
            return false;
        },
    };
    (curve.base_price as u128 * d).checked_add(scaled / 3).is_some()
}

/// Spot price of the curve at its current supply: `base_price + k * supply^2`.
pub fn current_price(curve: &CurveState) -> (r: u128)
    requires
        spot_price_fits(*curve),
    ensures
        r == spot_price(curve.base_price as int, curve.k as int, curve.supply as int),
{
    let s = curve.supply as u128;
    proof {
        lemma_product_of_u64s(curve.k as int, s as int);
        assert(curve.k as int * s * s <= u128::MAX);
    }
    let ks = curve.k as u128 * s;
    let kss = ks * s;
    curve.base_price as u128 + kss
}

/// The exact cost of buying `amount` tokens, in `u128`.
fn exact_buy_cost(curve: &CurveState, amount: u64) -> (r: u128)
    requires
        buy_cost_fits(*curve, amount),
    ensures
        r == cost_to_buy_spec(*curve, amount),
{
    let s = curve.supply as u128;
    let d = amount as u128;
    let base = curve.base_price as u128;
    let k = curve.k as u128;
    proof {
        lemma_product_of_u64s(base as int, d as int);
        lemma_cube_monotonic(s as int, (s + d) as int);
        lemma_cube_monotonic((s + d) as int, (s + d) as int);
    }
    let base_cost = base * d;
    let sd = s + d;
    let sd2 = sd * sd;
    let new = sd2 * sd;
    let s2 = s * s;
    let old = s2 * s;
    proof {
        lemma_scaled_nonnegative(k as int, old as int, new as int);
    }
    let curve_cost = k * (new - old) / 3;
    base_cost + curve_cost
}

/// Exact lamports required to buy `amount` tokens:
/// `base_price * amount + floor(k * ((supply + amount)^3 - supply^3) / 3)`,
/// for an amount whose cost fits in `u64`.
pub fn cost_to_buy(curve: &CurveState, amount: u64) -> (r: u64)
    requires
        buy_cost_fits(*curve, amount),
        cost_to_buy_spec(*curve, amount) <= u64::MAX,
    ensures
        r == cost_to_buy_spec(*curve, amount),
{
    let total = exact_buy_cost(curve, amount);
    total as u64
}

/// Lamports received for selling `amount` tokens back into the curve, or
/// `InsufficientLiquidity` where `amount` exceeds the supply.
pub fn refund_for_sell(curve: &CurveState, amount: u64) -> (r: Result<u128, ErrorCode>)
    requires
        amount <= curve.supply ==> sell_refund_fits(*curve, amount),
    ensures
        match r {
            Ok(v) => refund_for_sell_spec(*curve, amount) == Ok::<int, ErrorCode>(v as int),
            Err(e) => refund_for_sell_spec(*curve, amount) == Err::<int, ErrorCode>(e),
        },
{
    if amount > curve.supply {
        return Err(ErrorCode::InsufficientLiquidity);
    }
    let s = curve.supply as u128;
    let d = amount as u128;
    let base = curve.base_price as u128;
    let k = curve.k as u128;
    proof {
        lemma_product_of_u64s(base as int, d as int);
    }
    let base_refund = base * d;
    let remaining = s - d;
    let new = saturating_cube_u128(s);
    let old = saturating_cube_u128(remaining);
    proof {
        lemma_cube_monotonic(remaining as int, s as int);
        lemma_scaled_nonnegative(k as int, old as int, new as int);
    }
    let curve_refund = k * (new - old) / 3;
    Ok(base_refund + curve_refund)
}

/// `x` cubed, saturated at `u128::MAX`.
fn saturating_cube_u128(x: u128) -> (r: u128)
    requires
        x <= u64::MAX,
    ensures
        r == saturating_cube(x as int),
{
    proof {
        lemma_product_of_u64s(x as int, x as int);
    }
    let x2 = x * x;
    match x2.checked_mul(x) {
        Some(c) => c,
        None => u128::MAX,
    }
}

/// The cost of buying `amount`, refused with `SlippageExceeded` where it is
/// above `max_lamports` (so in particular where it does not fit in `u64`).
pub fn buy_with_slippage_check(curve: &CurveState, amount: u64, max_lamports: u64) -> (r: Result<
    u64,
    ErrorCode,
>)
    requires
        buy_cost_fits(*curve, amount),
    ensures
        cost_to_buy_spec(*curve, amount) <= max_lamports ==> r is Ok && r->Ok_0
            == cost_to_buy_spec(*curve, amount),
        cost_to_buy_spec(*curve, amount) > max_lamports ==> r == Err::<u64, ErrorCode>(
            ErrorCode::SlippageExceeded,
        ),
{
    let cost = exact_buy_cost(curve, amount);
    if cost > max_lamports as u128 {
        return Err(ErrorCode::SlippageExceeded);
    }
    Ok(cost as u64)
}

/// The refund for selling `amount`, refused with `InsufficientLiquidity`
/// where `amount` exceeds the supply and with `SlippageExceeded` where it is
/// below `min_lamports`.
pub fn sell_with_slippage_check(curve: &CurveState, amount: u64, min_lamports: u128) -> (r: Result<
    u128,
    ErrorCode,
>)
    requires
        amount <= curve.supply ==> sell_refund_fits(*curve, amount),
    ensures
        amount > curve.supply ==> r == Err::<u128, ErrorCode>(ErrorCode::InsufficientLiquidity),
        amount <= curve.supply ==> {
            let v = sell_refund(
                curve.base_price as int,
                curve.k as int,
                curve.supply as int,
                amount as int,
            );
            &&& v >= min_lamports ==> r == Ok::<u128, ErrorCode>(v as u128)
            &&& v < min_lamports ==> r == Err::<u128, ErrorCode>(ErrorCode::SlippageExceeded)
        },
{
    let refund = refund_for_sell(curve, amount)?;
    if refund < min_lamports {
        return Err(ErrorCode::SlippageExceeded);
    }
    Ok(refund)
}

proof fn lemma_cube_difference(s: int, d: int)
    ensures
        cube(s + d) - cube(s) == 3 * (s * s * d) + 3 * (s * d * d) + d * d * d,
{
    assert((s + d) * (s + d) * (s + d) - s * s * s == 3 * (s * s * d) + 3 * (s * d * d) + d * d
        * d) by (nonlinear_arith);
}

/// `k * (cube(s + d) - cube(s)) / 3` is `k*s^2*d + k*s*d^2 + floor(k*d^3 / 3)`.
proof fn lemma_curve_term(k: int, s: int, d: int)
    requires
        k >= 0,
        s >= 0,
        d >= 0,
    ensures
        (k * (cube(s + d) - cube(s))) / 3 == k * s * s * d + k * s * d * d + (k * d * d * d) / 3,
{
    lemma_cube_difference(s, d);
    let p = s * s * d;
    let q = s * d * d;
    let r = d * d * d;
    let a = cube(s + d) - cube(s);
    assert(k * a == 3 * (k * p) + 3 * (k * q) + k * r) by (nonlinear_arith)
        requires
            a == 3 * p + 3 * q + r,
    ;
    assert(k * p == k * s * s * d && k * q == k * s * d * d && k * r == k * d * d * d)
        by (nonlinear_arith)
        requires
            p == s * s * d,
            q == s * d * d,
            r == d * d * d,
    ;
    let x = k * s * s * d + k * s * d * d;
    let y = k * d * d * d;
    assert(k * a == 3 * x + y);
    assert((3 * x + y) / 3 == x + y / 3) by (nonlinear_arith);
}

/// Selling back the `d` tokens that were just bought at supply `s` returns
/// exactly the lamports that buying them cost (fees aside), wherever
/// `(s + d)^3` fits in `u128`.
pub proof fn law_sell_refund_matches_buy_cost(before: CurveState, after: CurveState, d: u64)
    requires
        after.base_price == before.base_price,
        after.k == before.k,
        after.supply == before.supply + d,
        cube(after.supply as int) <= u128::MAX,
    ensures
        refund_for_sell_spec(after, d) == Ok::<int, ErrorCode>(
            buy_cost(before.base_price as int, before.k as int, before.supply as int, d as int),
        ),
        refund_for_sell_spec(after, d) == Ok::<int, ErrorCode>(cost_to_buy_spec(before, d)),
{
    let s = before.supply as int;
    lemma_cube_monotonic(s, s + d);
    assert(saturating_cube(after.supply as int) == cube(s + d));
    assert(saturating_cube(after.supply - d) == cube(s));
    let c = buy_cost(before.base_price as int, before.k as int, s, d as int);
    lemma_scaled_nonnegative(before.k as int, cube(s), cube(s + d));
    assert(c >= 0) by (nonlinear_arith)
        requires
            c == before.base_price * d + (before.k * (cube(s + d) - cube(s))) / 3,
            before.k * (cube(s + d) - cube(s)) >= 0,
            before.base_price >= 0,
            d >= 0,
    ;
}

proof fn lemma_upper_spot_expansion(base: int, k: int, s: int, d: int)
    ensures
        d * spot_price(base, k, s + d) == base * d + k * s * s * d + 2 * (k * s * d * d) + k * d
            * d * d,
{
    let e = s + d;
    assert(k * e * e == k * s * s + 2 * (k * s * d) + k * d * d) by (nonlinear_arith)
        requires
            e == s + d,
    ;
    assert(d * (k * s * s + 2 * (k * s * d) + k * d * d) == k * s * s * d + 2 * (k * s * d * d)
        + k * d * d * d) by (nonlinear_arith);
    assert(d * (base + k * e * e) == base * d + d * (k * e * e)) by (nonlinear_arith);
}

/// The spot price never falls as the supply grows.
pub proof fn law_spot_price_monotonic(base: int, k: int, s1: int, s2: int)
    requires
        k >= 0,
        0 <= s1 <= s2,
    ensures
        spot_price(base, k, s1) <= spot_price(base, k, s2),
{
    assert(k * s1 * s1 <= k * s2 * s2) by (nonlinear_arith)
        requires
            k >= 0,
            0 <= s1 <= s2,
    ;
}

/// Buying `d` tokens at supply `s` costs at least `d` times the spot price
/// at `s`, and at most `d` times the spot price at `s + d`.
pub proof fn law_buy_cost_between_spot_prices(base: int, k: int, s: int, d: int)
    requires
        base >= 0,
        k >= 0,
        s >= 0,
        d >= 0,
    ensures
        d * spot_price(base, k, s) <= buy_cost(base, k, s, d),
        buy_cost(base, k, s, d) <= d * spot_price(base, k, s + d),
{
    lemma_curve_term(k, s, d);
    let t = (k * d * d * d) / 3;
    assert(0 <= t <= k * d * d * d) by (nonlinear_arith)
        requires
            t == (k * d * d * d) / 3,
            k >= 0,
            d >= 0,
    ;
    assert(d * spot_price(base, k, s) == base * d + k * s * s * d) by (nonlinear_arith);
    lemma_upper_spot_expansion(base, k, s, d);
    assert(k * s * d * d >= 0) by (nonlinear_arith)
        requires
            k >= 0,
            s >= 0,
            d >= 0,
    ;
}

/// Buying in two steps costs what buying at once does, up to one lamport of
/// rounding: the second step never costs more in total, and at most one
/// lamport less.
pub proof fn law_buy_cost_additive(base: int, k: int, s: int, a: int, b: int)
    requires
        base >= 0,
        k >= 0,
        s >= 0,
        a >= 0,
        b >= 0,
    ensures
        buy_cost(base, k, s, a) + buy_cost(base, k, s + a, b) <= buy_cost(base, k, s, a + b),
        buy_cost(base, k, s, a + b) <= buy_cost(base, k, s, a) + buy_cost(base, k, s + a, b) + 1,
{
    lemma_cube_monotonic(s, s + a);
    lemma_cube_monotonic(s + a, s + a + b);
    let x = k * (cube(s + a) - cube(s));
    let y = k * (cube(s + a + b) - cube(s + a));
    lemma_scaled_nonnegative(k, cube(s), cube(s + a));
    lemma_scaled_nonnegative(k, cube(s + a), cube(s + a + b));
    assert(k * (cube(s + (a + b)) - cube(s)) == x + y) by (nonlinear_arith)
        requires
            x == k * (cube(s + a) - cube(s)),
            y == k * (cube(s + a + b) - cube(s + a)),
            s + (a + b) == s + a + b,
    ;
    assert(base * (a + b) == base * a + base * b) by (nonlinear_arith);
    assert(x / 3 + y / 3 <= (x + y) / 3 <= x / 3 + y / 3 + 1) by (nonlinear_arith)
        requires
            x >= 0,
            y >= 0,
    ;
}

/// Buying `d` tokens at supply `s` costs the integral of the spot price
/// `base + k * x^2` from `s` to `s + d`, rounded down:
/// `base * d + k * ((s + d)^3 - s^3) / 3`, to within the two thirds of a
/// lamport that rounding drops.
pub proof fn law_buy_cost_is_exact_integral(base: int, k: int, s: int, d: int)
    requires
        k >= 0,
        s >= 0,
        d >= 0,
    ensures
        ({
            let grown = k * ((s + d) * (s + d) * (s + d) - s * s * s);
            let paid = 3 * (buy_cost(base, k, s, d) - base * d);
            0 <= grown - paid <= 2
        }),
{
    lemma_cube_monotonic(s, s + d);
    let x = k * (cube(s + d) - cube(s));
    lemma_scaled_nonnegative(k, cube(s), cube(s + d));
    assert(0 <= x - 3 * (x / 3) <= 2) by (nonlinear_arith)
        requires
            x >= 0,
    ;
}

/// Buying more tokens from the same supply never costs less.
pub proof fn law_buy_cost_monotonic_in_amount(base: int, k: int, s: int, d1: int, d2: int)
    requires
        base >= 0,
        k >= 0,
        s >= 0,
        0 <= d1 <= d2,
    ensures
        buy_cost(base, k, s, d1) <= buy_cost(base, k, s, d2),
{
    lemma_cube_monotonic(s + d1, s + d2);
    assert(k * (cube(s + d1) - cube(s)) <= k * (cube(s + d2) - cube(s))) by (nonlinear_arith)
        requires
            k >= 0,
            cube(s + d1) <= cube(s + d2),
    ;
    assert(base * d1 <= base * d2) by (nonlinear_arith)
        requires
            base >= 0,
            d1 <= d2,
    ;
}

} // verus!
