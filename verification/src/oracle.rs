//! The pricing curve: swap output with fee, the deposit rake that turns
//! token deltas into minted shares, and the pro-rata withdrawal quote.
//!
//! All quantities are `u64` token amounts; every intermediate product is
//! carried in 128 bits, and every result is checked against the 64-bit
//! range instead of wrapping. The swap curve preserves the reserve
//! product: the ask-side reserve after a swap is the ceiling of the
//! constant-product value, so the pool's value function never decreases.

use crate::error::AppError;
use vstd::prelude::*;

verus! {

/// Numerator of the fee retained in the ask-side reserve, in parts of
/// `FEE_DECIMALS`.
pub const FEE: u64 = 2_500_000;

/// Numerator of the earning skimmed for the fee vault when the ask side
/// is not the base token, in parts of `FEE_DECIMALS`.
pub const EARNING: u64 = 500_000;

/// Denominator of the two fee rates.
pub const FEE_DECIMALS: u64 = 1_000_000_000;

/// `ceil(x / d)` over mathematical integers, for `d > 0` and `x >= 0`.
pub open spec fn ceil_div(x: int, d: int) -> int {
    (x + d - 1) / d
}

/// The no-fee ask-side reserve after the bid side moved from `bid` to
/// `new_bid`: the least value keeping `new_bid * result >= bid * ask`.
/// `None` when the curve is undefined (an empty side) or the result
/// would exceed the current ask reserve.
pub open spec fn curve_spec(new_bid: u64, bid: u64, ask: u64) -> Option<u64> {
    if new_bid == 0 {
        None
    } else {
        let nf = ceil_div(bid * ask, new_bid as int);
        if nf == 0 || nf > ask {
            None
        } else {
            Some(nf as u64)
        }
    }
}

/// The fee retained in the ask reserve out of a no-fee payout `p`.
pub open spec fn fee_of(p: int) -> int {
    p * FEE / (FEE_DECIMALS as int)
}

/// The earning skimmed for the vault out of a no-fee payout `p`.
pub open spec fn earning_of(p: int) -> int {
    p * EARNING / (FEE_DECIMALS as int)
}

/// The full swap pricing step: new ask reserve, paid amount, earning.
/// When the ask side is the base token the earning is zero: the fee
/// already accumulates in base-token terms.
pub open spec fn curve_in_fee_spec(new_bid: u64, bid: u64, ask: u64, ask_is_base: bool) -> Option<
    (u64, u64, u64),
> {
    match curve_spec(new_bid, bid, ask) {
        None => None,
        Some(nf) => {
            let p = ask - nf;
            let fee = fee_of(p);
            let earning = if ask_is_base {
                0
            } else {
                earning_of(p)
            };
            Some((((nf + fee) as u64), ((p - fee - earning) as u64), (earning as u64)))
        },
    }
}

/// `floor(delta * supply / reserve)`: the shares a deposit of `delta`
/// into a slot holding `reserve` is worth, at `supply` shares
/// outstanding. Meaningful only for `reserve > 0`.
pub open spec fn share_quote(delta: u64, supply: u64, reserve: u64) -> int {
    delta * supply / (reserve as int)
}

/// `floor(lpt * reserve / supply)`: the tokens paid out of one slot when
/// `lpt` shares of `supply` are burned. Meaningful only for `supply > 0`.
pub open spec fn withdraw_quote(lpt: u64, reserve: u64, supply: u64) -> int {
    lpt * reserve / (supply as int)
}

/// No deposit at all: every delta is zero.
pub open spec fn all_zero(deltas: Seq<u64>) -> bool {
    forall|i: int| 0 <= i < deltas.len() ==> deltas[i] == 0
}

/// Some deposited slot in the first `n` has an empty reserve, so its
/// share quote is undefined.
pub open spec fn zero_reserve_deposit(deltas: Seq<u64>, reserves: Seq<u64>, n: int) -> bool {
    exists|i: int| 0 <= i < n && deltas[i] > 0 && reserves[i] == 0
}

/// The minimum share quote over the deposited slots among the first `n`,
/// or `None` when no slot is deposited. The minimum is the
/// exploit-resistant aggregation: an imbalanced deposit is priced off
/// its least favourable slot.
pub open spec fn min_quote(deltas: Seq<u64>, reserves: Seq<u64>, supply: u64, n: int) -> Option<
    int,
>
    decreases n,
{
    if n <= 0 {
        None
    } else {
        let rest = min_quote(deltas, reserves, supply, n - 1);
        if deltas[n - 1] == 0 {
            rest
        } else {
            let q = share_quote(deltas[n - 1], supply, reserves[n - 1]);
            match rest {
                None => Some(q),
                Some(m) => Some(
                    if q < m {
                        q
                    } else {
                        m
                    },
                ),
            }
        }
    }
}

/// Adding some deposited delta to its reserve in the first `n` slots
/// would leave the 64-bit range.
pub open spec fn deposit_overflows(deltas: Seq<u64>, reserves: Seq<u64>, n: int) -> bool {
    exists|i: int| 0 <= i < n && deltas[i] > 0 && reserves[i] + deltas[i] > u64::MAX
}

/// The shares a successful deposit mints: the seed rule at supply zero,
/// the minimum proportional quote otherwise.
pub open spec fn rake_minted(deltas: Seq<u64>, reserves: Seq<u64>, supply: u64) -> u64 {
    if supply == 0 {
        deltas[0]
    } else {
        min_quote(deltas, reserves, supply, deltas.len() as int).unwrap() as u64
    }
}

/// The reserves a successful deposit leaves: the deltas themselves at
/// supply zero, each deposited slot grown by its delta otherwise.
pub open spec fn rake_reserves(deltas: Seq<u64>, reserves: Seq<u64>, supply: u64) -> Seq<u64> {
    if supply == 0 {
        deltas
    } else {
        Seq::new(
            reserves.len(),
            |i: int|
                if deltas[i] > 0 {
                    (reserves[i] + deltas[i]) as u64
                } else {
                    reserves[i]
                },
        )
    }
}

/// As long as some slot among the first `n` is deposited, the minimum
/// share quote exists.
pub proof fn lemma_min_quote_some(deltas: Seq<u64>, reserves: Seq<u64>, supply: u64, n: int)
    requires
        n <= deltas.len(),
        exists|i: int| 0 <= i < n && deltas[i] > 0,
    ensures
        min_quote(deltas, reserves, supply, n).is_some(),
    decreases n,
{
    if n > 0 && deltas[n - 1] == 0 {
        let i = choose|i: int| 0 <= i < n && deltas[i] > 0;
        assert(0 <= i < n - 1);
        lemma_min_quote_some(deltas, reserves, supply, n - 1);
    }
}

/// The pricing engine. It knows token amounts and a share supply,
/// nothing of accounts or custody.
pub struct Oracle {}

impl Oracle {
    /// The no-fee constant-product step, over 128-bit intermediates.
    pub fn curve(new_bid_reserve: u64, bid_reserve: u64, ask_reserve: u64) -> (r: Option<u64>)
        ensures
            r == curve_spec(new_bid_reserve, bid_reserve, ask_reserve),
    {
        if new_bid_reserve == 0 {
            return None;
        }
        proof {
            assert((bid_reserve as u128) * (ask_reserve as u128) <= u128::MAX - u64::MAX) by (nonlinear_arith)
                requires
                    bid_reserve <= u64::MAX && ask_reserve <= u64::MAX,
            ;
        }
        let wide: u128 = (bid_reserve as u128) * (ask_reserve as u128);
        let nf: u128 = (wide + (new_bid_reserve as u128) - 1) / (new_bid_reserve as u128);
        if nf == 0 {
            return None;
        }
        if nf > ask_reserve as u128 {
            return None;
        }
        Some(nf as u64)
    }

    /// The swap pricing step with fee and earning split off the no-fee
    /// payout. Returns `(new_ask_reserve, paid_amount, earning)`.
    pub fn curve_in_fee(
        new_bid_reserve: u64,
        bid_reserve: u64,
        ask_reserve: u64,
        ask_is_base: bool,
    ) -> (r: Option<(u64, u64, u64)>)
        ensures
            r == curve_in_fee_spec(new_bid_reserve, bid_reserve, ask_reserve, ask_is_base),
    {
        let nf = match Self::curve(new_bid_reserve, bid_reserve, ask_reserve) {
            None => {
                return None;
            },
            Some(nf) => nf,
        };
        let p: u64 = ask_reserve - nf;
        proof {
            lemma_fee_parts(p);
        }
        let fee: u64 = (((p as u128) * (FEE as u128)) / (FEE_DECIMALS as u128)) as u64;
        let earning: u64 = if ask_is_base {
            0
        } else {
            (((p as u128) * (EARNING as u128)) / (FEE_DECIMALS as u128)) as u64
        };
        Some((nf + fee, p - fee - earning, earning))
    }
}

/// An element-for-element copy of a vector of amounts.
fn copy_amounts(v: &Vec<u64>) -> (r: Vec<u64>)
    ensures
        r@ == v@,
{
    let mut r: Vec<u64> = Vec::new();
    let mut i: usize = 0;
    while i < v.len()
        invariant
            i <= v.len(),
            r@ == v@.take(i as int),
        decreases v.len() - i,
    {
        r.push(v[i]);
        proof {
            assert(r@ == v@.take(i + 1));
        }
        i = i + 1;
    }
    proof {
        assert(v@.take(v@.len() as int) == v@);
    }
    r
}

impl Oracle {
    /// The deposit rake: prices a vector of per-slot deposits into one
    /// minted-share figure (the minimum proportional contribution over
    /// the deposited slots) and the grown reserves. A supply of zero is
    /// the seeding deposit: it mints the base-slot delta and adopts the
    /// deltas as reserves, fixing the initial exchange rate.
    pub fn rake(deltas: &Vec<u64>, reserves: &Vec<u64>, supply: u64) -> (r: Result<
        (u64, Vec<u64>),
        AppError,
    >)
        requires
            deltas@.len() == reserves@.len(),
        ensures
            all_zero(deltas@) <==> r == Err::<(u64, Vec<u64>), AppError>(AppError::ZeroValue),
            !all_zero(deltas@) && supply == 0 ==> (r matches Ok(o) && o.0 == deltas@[0] && o.1@
                == deltas@),
            !all_zero(deltas@) && supply > 0 ==> {
                let n = deltas@.len() as int;
                let m = min_quote(deltas@, reserves@, supply, n);
                if zero_reserve_deposit(deltas@, reserves@, n) || m.unwrap() > u64::MAX
                    || deposit_overflows(deltas@, reserves@, n) {
                    r == Err::<(u64, Vec<u64>), AppError>(AppError::Overflow)
                } else {
                    r matches Ok(o) && o.0 == m.unwrap() && o.1@.len() == n && (forall|i: int|
                        0 <= i < n ==> o.1@[i] == if deltas@[i] > 0 {
                            (reserves@[i] + deltas@[i]) as u64
                        } else {
                            reserves@[i]
                        })
                }
            },
    {
        let n = deltas.len();
        let mut any: bool = false;
        let mut i: usize = 0;
        while i < n
            invariant
                n == deltas@.len(),
                i <= n,
                any <==> exists|j: int| 0 <= j < i && deltas@[j] != 0,
            decreases n - i,
        {
            if deltas[i] != 0 {
                any = true;
            }
            i = i + 1;
        }
        if !any {
            return Err(AppError::ZeroValue);
        }
        if supply == 0 {
            return Ok((deltas[0], copy_amounts(deltas)));
        }
        let mut m: u128 = 0;
        let mut found: bool = false;
        let mut i: usize = 0;
        while i < n
            invariant
                n == deltas@.len() == reserves@.len(),
                i <= n,
                supply > 0,
                !all_zero(deltas@),
                !zero_reserve_deposit(deltas@, reserves@, i as int),
                found <==> min_quote(deltas@, reserves@, supply, i as int).is_some(),
                found ==> min_quote(deltas@, reserves@, supply, i as int) == Some(m as int),
            decreases n - i,
        {
            if deltas[i] > 0 {
                if reserves[i] == 0 {
                    return Err(AppError::Overflow);
                }
                proof {
                    assert((deltas@[i as int] as u128) * (supply as u128) <= u128::MAX)
                        by (nonlinear_arith)
                        requires
                            deltas@[i as int] <= u64::MAX && supply <= u64::MAX,
                    ;
                }
                let q: u128 = (deltas[i] as u128) * (supply as u128) / (reserves[i] as u128);
                if !found || q < m {
                    m = q;
                    found = true;
                }
            }
            i = i + 1;
        }
        proof {
            lemma_min_quote_some(deltas@, reserves@, supply, n as int);
        }
        if m > u64::MAX as u128 {
            return Err(AppError::Overflow);
        }
        let mut nr: Vec<u64> = Vec::new();
        let mut i: usize = 0;
        while i < n
            invariant
                n == deltas@.len() == reserves@.len(),
                i <= n,
                supply > 0,
                !all_zero(deltas@),
                !zero_reserve_deposit(deltas@, reserves@, n as int),
                min_quote(deltas@, reserves@, supply, n as int) == Some(m as int),
                m <= u64::MAX,
                !deposit_overflows(deltas@, reserves@, i as int),
                nr@.len() == i,
                forall|j: int| 0 <= j < i ==> nr@[j] == if deltas@[j] > 0 {
                    (reserves@[j] + deltas@[j]) as u64
                } else {
                    reserves@[j]
                },
            decreases n - i,
        {
            if deltas[i] > 0 {
                match reserves[i].checked_add(deltas[i]) {
                    Some(v) => nr.push(v),
                    None => {
                        return Err(AppError::Overflow);
                    },
                }
            } else {
                nr.push(reserves[i]);
            }
            i = i + 1;
        }
        Ok((m as u64, nr))
    }

    /// The pro-rata withdrawal quotes for burning `lpt` of `supply`
    /// shares: `floor(lpt * reserve / supply)` for every slot, over
    /// 128-bit intermediates. Fails with `Overflow` when the supply is
    /// zero or a quote leaves the 64-bit range.
    pub fn withdraw_quotes(lpt: u64, reserves: &Vec<u64>, supply: u64) -> (r: Result<
        Vec<u64>,
        AppError,
    >)
        ensures
            supply == 0 ==> r == Err::<Vec<u64>, AppError>(AppError::Overflow),
            supply > 0 && (exists|i: int|
                0 <= i < reserves@.len() && withdraw_quote(lpt, reserves@[i], supply)
                    > u64::MAX) ==> r == Err::<Vec<u64>, AppError>(AppError::Overflow),
            supply > 0 && (forall|i: int|
                0 <= i < reserves@.len() ==> withdraw_quote(lpt, reserves@[i], supply)
                    <= u64::MAX) ==> (r matches Ok(q) && q@.len() == reserves@.len() && (forall|
                i: int,
            | 0 <= i < reserves@.len() ==> q@[i] == withdraw_quote(lpt, reserves@[i], supply))),
    {
        if supply == 0 {
            return Err(AppError::Overflow);
        }
        let mut q: Vec<u64> = Vec::new();
        let mut i: usize = 0;
        while i < reserves.len()
            invariant
                supply > 0,
                i <= reserves@.len(),
                q@.len() == i,
                forall|j: int| 0 <= j < i ==> q@[j] == withdraw_quote(lpt, reserves@[j], supply),
            decreases reserves@.len() - i,
        {
            proof {
                assert((lpt as u128) * (reserves@[i as int] as u128) <= u128::MAX)
                    by (nonlinear_arith)
                    requires
                        lpt <= u64::MAX && reserves@[i as int] <= u64::MAX,
                ;
            }
            let wide: u128 = (lpt as u128) * (reserves[i] as u128) / (supply as u128);
            if wide > u64::MAX as u128 {
                return Err(AppError::Overflow);
            }
            q.push(wide as u64);
            i = i + 1;
        }
        proof {
            assert forall|j: int|
                0 <= j < reserves@.len() implies withdraw_quote(lpt, reserves@[j], supply)
                <= u64::MAX by {
                assert(q@[j] == withdraw_quote(lpt, reserves@[j], supply));
            }
        }
        Ok(q)
    }
}

/// The fee and the earning are nonnegative and together never exceed the
/// no-fee payout they are taken from, because the two rates sum to less
/// than one.
pub proof fn lemma_fee_parts(p: u64)
    ensures
        0 <= fee_of(p as int) <= p,
        0 <= earning_of(p as int) <= p,
        fee_of(p as int) + earning_of(p as int) <= p,
{
    assert(0 <= p * FEE / (FEE_DECIMALS as int) <= p && 0 <= p * EARNING / (FEE_DECIMALS as int)
        <= p && p * FEE / (FEE_DECIMALS as int) + p * EARNING / (FEE_DECIMALS as int) <= p)
        by (nonlinear_arith)
        requires
            p >= 0,
    ;
}

/// Law (swap conservation): whenever the pricing step succeeds, every
/// unit of the old ask reserve is accounted for — it either stays in
/// the new ask reserve, is paid to the trader, or is skimmed as the
/// vault's earning — and the product of the two reserves never
/// decreases across the swap.
pub proof fn lemma_swap_conservation(new_bid: u64, bid: u64, ask: u64, ask_is_base: bool)
    requires
        curve_in_fee_spec(new_bid, bid, ask, ask_is_base).is_some(),
    ensures
        ({
            let (new_ask, paid, earning) = curve_in_fee_spec(
                new_bid,
                bid,
                ask,
                ask_is_base,
            ).unwrap();
            new_ask + paid + earning == ask
        }),
        ({
            let (new_ask, paid, earning) = curve_in_fee_spec(
                new_bid,
                bid,
                ask,
                ask_is_base,
            ).unwrap();
            new_bid * new_ask >= bid * ask
        }),
{
    let x = bid * ask;
    let d = new_bid as int;
    vstd::arithmetic::mul::lemma_mul_nonnegative(bid as int, ask as int);
    vstd::arithmetic::div_mod::lemma_div_pos_is_pos(x + d - 1, d);
    let nf = ceil_div(x, d);
    assert(curve_spec(new_bid, bid, ask).unwrap() == nf);
    let p = (ask - nf) as u64;
    lemma_fee_parts(p);
    let fee = fee_of(p as int);
    // ceiling division never undershoots the product
    vstd::arithmetic::div_mod::lemma_remainder_upper(x + d - 1, d);
    assert(nf * d >= x);
    vstd::arithmetic::mul::lemma_mul_inequality(nf, nf + fee, d);
    assert((nf + fee) * d >= x);
    vstd::arithmetic::mul::lemma_mul_is_commutative(nf + fee, d);
}

/// Law (no negative reserves): burning no more shares than exist quotes
/// out no more than the slot holds, so the reserve subtraction of a
/// withdrawal can never underflow.
pub proof fn lemma_withdraw_bounded(lpt: u64, reserve: u64, supply: u64)
    requires
        0 < supply,
        lpt <= supply,
    ensures
        0 <= withdraw_quote(lpt, reserve, supply) <= reserve,
{
    vstd::arithmetic::mul::lemma_mul_nonnegative(lpt as int, reserve as int);
    vstd::arithmetic::mul::lemma_mul_inequality(lpt as int, supply as int, reserve as int);
    vstd::arithmetic::div_mod::lemma_div_is_ordered(
        lpt * reserve,
        supply * reserve,
        supply as int,
    );
    vstd::arithmetic::div_mod::lemma_div_multiples_vanish(reserve as int, supply as int);
    vstd::arithmetic::mul::lemma_mul_is_commutative(supply as int, reserve as int);
    vstd::arithmetic::div_mod::lemma_div_pos_is_pos(lpt * reserve, supply as int);
}

/// The minimum quote never exceeds the quote of any deposited slot.
pub proof fn lemma_min_quote_le(deltas: Seq<u64>, reserves: Seq<u64>, supply: u64, n: int, i: int)
    requires
        0 <= i < n <= deltas.len(),
        deltas[i] > 0,
    ensures
        min_quote(deltas, reserves, supply, n).is_some(),
        min_quote(deltas, reserves, supply, n).unwrap() <= share_quote(
            deltas[i],
            supply,
            reserves[i],
        ),
    decreases n,
{
    if i < n - 1 {
        lemma_min_quote_le(deltas, reserves, supply, n - 1, i);
    }
}

/// Law (round trip, no gain): a deposit priced at the minimum
/// proportional quote `m` can never be turned into a profit by an
/// immediate withdrawal — for a deposited slot, burning the `m` minted
/// shares against the grown reserve and supply returns at most the
/// deposited amount.
pub proof fn lemma_round_trip_no_gain(delta: u64, reserve: u64, supply: u64, m: u64)
    requires
        supply > 0,
        reserve > 0,
        delta > 0,
        m <= share_quote(delta, supply, reserve),
        reserve + delta <= u64::MAX,
        supply + m <= u64::MAX,
    ensures
        withdraw_quote(m, (reserve + delta) as u64, (supply + m) as u64) <= delta,
{
    let r = reserve as int;
    let d = delta as int;
    let s = supply as int;
    let q = share_quote(delta, supply, reserve);
    // m <= floor(d * s / r) implies m * r <= d * s
    vstd::arithmetic::mul::lemma_mul_nonnegative(d, s);
    vstd::arithmetic::div_mod::lemma_remainder_lower(d * s, r);
    vstd::arithmetic::mul::lemma_mul_inequality(m as int, q, r);
    assert(m * r <= d * s);
    // hence m * (r + d) <= d * (s + m)
    vstd::arithmetic::mul::lemma_mul_is_distributive_add(m as int, r, d);
    vstd::arithmetic::mul::lemma_mul_is_distributive_add(d, s, m as int);
    vstd::arithmetic::mul::lemma_mul_is_commutative(m as int, d);
    assert(m * (r + d) <= d * (s + m));
    vstd::arithmetic::div_mod::lemma_div_is_ordered(m * (r + d), d * (s + m), s + m);
    vstd::arithmetic::div_mod::lemma_div_multiples_vanish(d, s + m);
    vstd::arithmetic::mul::lemma_mul_is_commutative(d, s + m);
    assert(d * (s + m) == (s + m) * d);
}

/// Law (round trip, bounded loss): on the slot whose quote set the
/// minted amount, the round trip loses at most one unit to floor
/// rounding, as long as the slot's reserve does not exceed the grown
/// share supply. (A reserve far above the supply prices a deposit
/// below one share per unit, and floor rounding can then swallow more
/// than a unit.)
pub proof fn lemma_round_trip_low_loss(delta: u64, reserve: u64, supply: u64, m: u64)
    requires
        supply > 0,
        reserve > 0,
        delta > 0,
        m as int == share_quote(delta, supply, reserve),
        reserve <= supply + m,
        reserve + delta <= u64::MAX,
        supply + m <= u64::MAX,
    ensures
        withdraw_quote(m, (reserve + delta) as u64, (supply + m) as u64) >= delta - 1,
{
    let r = reserve as int;
    let d = delta as int;
    let s = supply as int;
    let mi = m as int;
    vstd::arithmetic::mul::lemma_mul_nonnegative(d, s);
    // the floor quote undershoots by less than one reserve's worth
    vstd::arithmetic::div_mod::lemma_remainder_upper(d * s, r);
    assert(mi * r > d * s - r);
    assert(mi * (r + d) >= (d - 1) * (s + mi)) by (nonlinear_arith)
        requires
            mi * r > d * s - r,
            r <= s + mi,
            d >= 1,
            mi >= 0,
    ;
    vstd::arithmetic::div_mod::lemma_div_is_ordered((d - 1) * (s + mi), mi * (r + d), s + mi);
    vstd::arithmetic::div_mod::lemma_div_multiples_vanish(d - 1, s + mi);
    vstd::arithmetic::mul::lemma_mul_is_commutative(d - 1, s + mi);
}

/// Law (round trip, exactness): when a deposit is exactly proportional
/// — the minted shares satisfy `delta * supply == m * reserve` — an
/// immediate withdrawal of those shares returns the deposit to the
/// unit.
pub proof fn lemma_round_trip_exact(delta: u64, reserve: u64, supply: u64, m: u64)
    requires
        supply > 0,
        delta * supply == m * reserve,
        reserve + delta <= u64::MAX,
        supply + m <= u64::MAX,
    ensures
        withdraw_quote(m, (reserve + delta) as u64, (supply + m) as u64) == delta,
{
    let r = reserve as int;
    let d = delta as int;
    let s = supply as int;
    vstd::arithmetic::mul::lemma_mul_is_distributive_add(m as int, r, d);
    vstd::arithmetic::mul::lemma_mul_is_distributive_add(d, s, m as int);
    vstd::arithmetic::mul::lemma_mul_is_commutative(m as int, d);
    vstd::arithmetic::mul::lemma_mul_is_commutative(m as int, r);
    vstd::arithmetic::mul::lemma_mul_is_commutative(d, s);
    assert(m * (r + d) == d * (s + m));
    vstd::arithmetic::div_mod::lemma_div_multiples_vanish(d, s + m);
    vstd::arithmetic::mul::lemma_mul_is_commutative(d, s + m);
    assert(d * (s + m) == (s + m) * d);
}

/// Law (seed round trip): the seeding deposit is exactly reversible —
/// burning all shares it minted returns every slot's full deposit,
/// because the seed fixes the supply at the base-slot delta.
pub proof fn lemma_seed_round_trip(deltas: Seq<u64>, i: int)
    requires
        0 <= i < deltas.len(),
        deltas[0] > 0,
    ensures
        withdraw_quote(deltas[0], deltas[i], deltas[0]) == deltas[i],
{
    vstd::arithmetic::div_mod::lemma_div_multiples_vanish(deltas[i] as int, deltas[0] as int);
}

/// Law (deposit-withdraw round trip): a deposit followed at once by a
/// withdrawal of exactly the shares it minted. The seeding deposit is
/// exactly reversible on every slot. At positive supply, a deposited
/// slot pays back at most its deposit — never more — and exactly its
/// deposit when the deposit was exactly proportional to the reserves.
pub proof fn lemma_deposit_withdraw_round_trip(
    deltas: Seq<u64>,
    reserves: Seq<u64>,
    supply: u64,
    i: int,
)
    requires
        deltas.len() == reserves.len(),
        0 <= i < deltas.len(),
        deltas[0] > 0,
        deltas[i] > 0,
        supply > 0 ==> reserves[i] > 0 && min_quote(deltas, reserves, supply, deltas.len() as int)
            == Some(rake_minted(deltas, reserves, supply) as int) && reserves[i] + deltas[i]
            <= u64::MAX && supply + rake_minted(deltas, reserves, supply) <= u64::MAX,
    ensures
        supply == 0 ==> withdraw_quote(
            rake_minted(deltas, reserves, supply),
            rake_reserves(deltas, reserves, supply)[i],
            (supply + rake_minted(deltas, reserves, supply)) as u64,
        ) == deltas[i],
        supply > 0 ==> withdraw_quote(
            rake_minted(deltas, reserves, supply),
            rake_reserves(deltas, reserves, supply)[i],
            (supply + rake_minted(deltas, reserves, supply)) as u64,
        ) <= deltas[i],
        supply > 0 && deltas[i] * supply == rake_minted(deltas, reserves, supply) * reserves[i]
            ==> withdraw_quote(
            rake_minted(deltas, reserves, supply),
            rake_reserves(deltas, reserves, supply)[i],
            (supply + rake_minted(deltas, reserves, supply)) as u64,
        ) == deltas[i],
{
    let m = rake_minted(deltas, reserves, supply);
    if supply == 0 {
        lemma_seed_round_trip(deltas, i);
    } else {
        lemma_prorata_round_trip(deltas, reserves, supply, m, i);
    }
}

/// Law (pro-rata round trip): combining the pieces over a whole
/// deposit. With `m` the minted shares of `rake` at positive supply,
/// every deposited slot pays back at most its deposit on an immediate
/// withdrawal of `m`, and exactly its deposit when the deposit was
/// exactly proportional.
pub proof fn lemma_prorata_round_trip(
    deltas: Seq<u64>,
    reserves: Seq<u64>,
    supply: u64,
    m: u64,
    i: int,
)
    requires
        supply > 0,
        deltas.len() == reserves.len(),
        0 <= i < deltas.len(),
        deltas[i] > 0,
        reserves[i] > 0,
        min_quote(deltas, reserves, supply, deltas.len() as int) == Some(m as int),
        reserves[i] + deltas[i] <= u64::MAX,
        supply + m <= u64::MAX,
    ensures
        withdraw_quote(m, (reserves[i] + deltas[i]) as u64, (supply + m) as u64) <= deltas[i],
        deltas[i] * supply == m * reserves[i] ==> withdraw_quote(
            m,
            (reserves[i] + deltas[i]) as u64,
            (supply + m) as u64,
        ) == deltas[i],
{
    lemma_min_quote_le(deltas, reserves, supply, deltas.len() as int, i);
    lemma_round_trip_no_gain(deltas[i], reserves[i], supply, m);
    if deltas[i] * supply == m * reserves[i] {
        lemma_round_trip_exact(deltas[i], reserves[i], supply, m);
    }
}

} // verus!

