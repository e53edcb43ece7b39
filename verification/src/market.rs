use vstd::prelude::*;

use crate::dec::{Decimal, DECIMAL_FRACTIONAL, DECIMAL_FRACTIONAL_SQUARED, reverse_decimal, mul_wide, div_wide, wide_value, lemma_wide_div_bounds};
use crate::store::{Bucket, keys_sorted, copy_bytes, bytes_eq, page_len, page_start_ok};
use crate::{Addr, Coin, Env, Error, Request};

verus! {

/// Market contract configuration, immutable except through an owner update.
pub struct Config {
    pub owner_addr: Addr,
    pub aterra_contract: Addr,
    pub interest_model: Addr,
    pub distribution_model: Addr,
    pub overseer_contract: Addr,
    pub collector_contract: Addr,
    pub faucet_contract: Addr,
    pub stable_denom: Vec<u8>,
    pub reserve_factor: Decimal,
    pub max_borrow_factor: Decimal,
}

/// Mutable market state: pool-wide accounting that interest accrual and
/// borrow/repay bookkeeping adjust. Liabilities and reserves never go
/// negative: an operation that would drive either negative fails instead.
#[derive(Clone, Copy, Debug, PartialEq, Eq, Structural)]
#[verifier::ext_equal]
pub struct State {
    pub total_liabilities: Decimal,
    pub total_reserves: Decimal,
    pub last_interest_updated: u64,
    pub last_reward_updated: u64,
    pub global_interest_index: Decimal,
    pub global_reward_index: Decimal,
    pub anc_emission_rate: Decimal,
}

/// One borrower's liability record.
#[derive(Clone, Copy, Debug, PartialEq, Eq, Structural)]
pub struct Liability {
    pub interest_index: Decimal,
    pub reward_index: Decimal,
    pub loan_amount: u128,
    pub pending_rewards: Decimal,
}

// ---------------------------------------------------------------------------
// Mathematical model of the engine's derived quantities
// ---------------------------------------------------------------------------

/// The amount of the base denomination sent along with a call: the amount of
/// the first coin in that denomination, zero when none is present.
pub open spec fn sent_base_amount(funds: Seq<Coin>, denom: Seq<u8>) -> int
    decreases funds.len(),
{
    if funds.len() == 0 {
        0
    } else if funds[0].denom@ == denom {
        funds[0].amount as int
    } else {
        sent_base_amount(funds.skip(1), denom)
    }
}

/// Pool value in atoms: pool_balance + total_liabilities - total_reserves.
pub open spec fn pool_atoms(st: State, balance: int) -> int {
    balance * DECIMAL_FRACTIONAL + st.total_liabilities.atoms - st.total_reserves.atoms
}

/// The exchange rate is well defined and representable: the pool value is
/// non-negative and its per-token quotient fits.
pub open spec fn rate_ok(st: State, balance: int, supply: int) -> bool {
    supply == 0 || (pool_atoms(st, balance) >= 0 && pool_atoms(st, balance) / supply
        <= u128::MAX)
}

/// Exchange rate in atoms: pool value per receipt token, exactly one whole
/// unit when no receipt token is outstanding.
pub open spec fn exchange_rate_atoms(st: State, balance: int, supply: int) -> int {
    if supply == 0 {
        DECIMAL_FRACTIONAL as int
    } else {
        pool_atoms(st, balance) / supply
    }
}

/// Receipt tokens minted for a deposit: amount * (1 / exchange_rate), with
/// both the reciprocal and the product truncated at 18 fractional digits.
pub open spec fn mint_amount_of(amount: int, rate_atoms: int) -> int {
    amount * ((DECIMAL_FRACTIONAL_SQUARED as int) / rate_atoms) / (DECIMAL_FRACTIONAL as int)
}

/// Base asset returned for burning receipt tokens: burn * exchange_rate,
/// truncated at 18 fractional digits.
pub open spec fn redeem_amount_of(burn: int, rate_atoms: int) -> int {
    burn * rate_atoms / (DECIMAL_FRACTIONAL as int)
}

/// Atoms of the per-period borrow rate: the per-block rate scaled by the
/// blocks elapsed since interest was last compounded.
pub open spec fn passed_rate_atoms(st: State, borrow_rate: Decimal, h: u64) -> int {
    borrow_rate.atoms * (h - st.last_interest_updated)
}

/// Atoms of the interest accrued on the outstanding liabilities.
pub open spec fn accrued_interest_atoms(st: State, borrow_rate: Decimal, h: u64) -> int {
    st.total_liabilities.atoms * passed_rate_atoms(st, borrow_rate, h) / (
    DECIMAL_FRACTIONAL as int)
}

/// Every intermediate of one accrual step fits u128.
pub open spec fn accrual_ok(st: State, reserve_factor: Decimal, borrow_rate: Decimal, h: u64) -> bool {
    let pr = passed_rate_atoms(st, borrow_rate, h);
    let acc = accrued_interest_atoms(st, borrow_rate, h);
    &&& pr <= u128::MAX
    &&& acc <= u128::MAX
    &&& st.total_liabilities.atoms + acc <= u128::MAX
    &&& reserve_factor.atoms * acc / (DECIMAL_FRACTIONAL as int) <= u128::MAX
    &&& st.total_reserves.atoms + reserve_factor.atoms * acc / (DECIMAL_FRACTIONAL as int)
        <= u128::MAX
    &&& DECIMAL_FRACTIONAL + pr <= u128::MAX
    &&& st.global_interest_index.atoms * (DECIMAL_FRACTIONAL + pr) / (DECIMAL_FRACTIONAL as int)
        <= u128::MAX
}

/// The state after one accrual step at height `h`: liabilities grown by the
/// accrued interest, a reserve-factor share of it retained as reserves, the
/// global interest index advanced multiplicatively, and the accrual height
/// moved to `h`.
pub open spec fn accrued_state(st: State, reserve_factor: Decimal, borrow_rate: Decimal, h: u64) -> State {
    let pr = passed_rate_atoms(st, borrow_rate, h);
    let acc = accrued_interest_atoms(st, borrow_rate, h);
    State {
        total_liabilities: Decimal { atoms: (st.total_liabilities.atoms + acc) as u128 },
        total_reserves: Decimal {
            atoms: (st.total_reserves.atoms + reserve_factor.atoms * acc / (
            DECIMAL_FRACTIONAL as int)) as u128,
        },
        last_interest_updated: h,
        last_reward_updated: st.last_reward_updated,
        global_interest_index: Decimal {
            atoms: (st.global_interest_index.atoms * (DECIMAL_FRACTIONAL + pr) / (
            DECIMAL_FRACTIONAL as int)) as u128,
        },
        global_reward_index: st.global_reward_index,
        anc_emission_rate: st.anc_emission_rate,
    }
}

/// The tax the ledger withholds on a base-asset transfer: the rate-scaled
/// amount, capped.
pub open spec fn tax_of(amount: int, tax_rate: Decimal, tax_cap: int) -> int {
    let raw = amount * tax_rate.atoms / (DECIMAL_FRACTIONAL as int);
    if raw <= tax_cap {
        raw
    } else {
        tax_cap
    }
}

// ---------------------------------------------------------------------------
// Interest accrual
// ---------------------------------------------------------------------------

/// Compound the interest accrued since `last_interest_updated` into the
/// market state. A no-op when no block has elapsed; otherwise all-or-nothing:
/// on any overflow the state is untouched and `ArithmeticError` is reported.
pub fn compute_interest(
    config: &Config,
    state: &mut State,
    current_height: u64,
    borrow_rate: Decimal,
) -> (r: Result<(), Error>)
    requires
        current_height >= old(state).last_interest_updated,
    ensures
        current_height == old(state).last_interest_updated ==> r == Ok::<(), Error>(()) && *final(state)
            == *old(state),
        current_height > old(state).last_interest_updated && accrual_ok(
            *old(state),
            config.reserve_factor,
            borrow_rate,
            current_height,
        ) ==> r == Ok::<(), Error>(()) && *final(state) == accrued_state(
            *old(state),
            config.reserve_factor,
            borrow_rate,
            current_height,
        ),
        current_height > old(state).last_interest_updated && !accrual_ok(
            *old(state),
            config.reserve_factor,
            borrow_rate,
            current_height,
        ) ==> r == Err::<(), Error>(Error::ArithmeticError) && *final(state) == *old(state),
{
    if current_height == state.last_interest_updated {
        return Ok(());
    }
    let blocks = current_height - state.last_interest_updated;
    let pr_atoms = match borrow_rate.atoms.checked_mul(blocks as u128) {
        Some(v) => v,
        None => {
            return Err(Error::ArithmeticError);
        },
    };
    let passed_rate = Decimal { atoms: pr_atoms };
    let accrued = match state.total_liabilities.checked_mul(passed_rate) {
        Ok(v) => v,
        Err(e) => {
            return Err(e);
        },
    };
    let new_liabilities = match state.total_liabilities.checked_add(accrued) {
        Ok(v) => v,
        Err(e) => {
            return Err(e);
        },
    };
    let reserve_cut = match config.reserve_factor.checked_mul(accrued) {
        Ok(v) => v,
        Err(e) => {
            return Err(e);
        },
    };
    let new_reserves = match state.total_reserves.checked_add(reserve_cut) {
        Ok(v) => v,
        Err(e) => {
            return Err(e);
        },
    };
    let one = Decimal { atoms: DECIMAL_FRACTIONAL };
    let one_plus = match one.checked_add(passed_rate) {
        Ok(v) => v,
        Err(e) => {
            return Err(e);
        },
    };
    let new_index = match state.global_interest_index.checked_mul(one_plus) {
        Ok(v) => v,
        Err(e) => {
            return Err(e);
        },
    };
    state.total_liabilities = new_liabilities;
    state.total_reserves = new_reserves;
    state.global_interest_index = new_index;
    state.last_interest_updated = current_height;
    Ok(())
}

// ---------------------------------------------------------------------------
// Exchange rate
// ---------------------------------------------------------------------------

/// The receipt-token exchange rate derived from the given state and the
/// queried pool balance and receipt-token supply. Exactly one whole unit when
/// the supply is zero; otherwise the truncated pool value per receipt token.
pub fn compute_exchange_rate(state: &State, aterra_supply: u128, balance: u128) -> (r: Result<
    Decimal,
    Error,
>)
    ensures
        aterra_supply == 0 ==> (r matches Ok(d) && d.atoms == DECIMAL_FRACTIONAL),
        aterra_supply != 0 && rate_ok(*state, balance as int, aterra_supply as int) ==> (r
            matches Ok(d) && d.atoms == exchange_rate_atoms(*state, balance as int, aterra_supply as int)),
        aterra_supply != 0 && !rate_ok(*state, balance as int, aterra_supply as int) ==> r
            == Err::<Decimal, Error>(Error::ArithmeticError),
{
    if aterra_supply == 0 {
        return Ok(Decimal::one());
    }
    let wide = mul_wide(balance, DECIMAL_FRACTIONAL);
    let mut hi = wide.0;
    let mut lo = wide.1;
    let liab = state.total_liabilities.atoms;
    proof {
        assert(hi < DECIMAL_FRACTIONAL) by (nonlinear_arith)
            requires
                hi * (u128::MAX as int + 1) + lo == balance * DECIMAL_FRACTIONAL,
                balance <= u128::MAX,
                lo >= 0,
                DECIMAL_FRACTIONAL > 0,
        ;
    }
    if lo <= u128::MAX - liab {
        lo = lo + liab;
    } else {
        lo = lo - (u128::MAX - liab) - 1;
        hi = hi + 1;
    }
    proof {
        assert(wide_value(hi, lo) == balance * DECIMAL_FRACTIONAL + liab);
    }
    let res = state.total_reserves.atoms;
    if lo >= res {
        lo = lo - res;
    } else if hi >= 1 {
        hi = hi - 1;
        lo = lo + (u128::MAX - res) + 1;
    } else {
        // the reserves exceed the pool: the pool value would be negative
        return Err(Error::ArithmeticError);
    }
    proof {
        assert(wide_value(hi, lo) == pool_atoms(*state, balance as int));
        lemma_wide_div_bounds(hi, lo, aterra_supply);
    }
    if hi >= aterra_supply {
        return Err(Error::ArithmeticError);
    }
    Ok(Decimal { atoms: div_wide(hi, lo, aterra_supply) })
}

// ---------------------------------------------------------------------------
// Tax and liquidity at the transfer boundary
// ---------------------------------------------------------------------------

/// The amount actually delivered by a base-asset transfer of `amount`, after
/// the ledger's capped transfer tax.
pub fn deduct_tax(amount: u128, tax_rate: Decimal, tax_cap: u128) -> (r: Result<u128, Error>)
    ensures
        amount * tax_rate.atoms / (DECIMAL_FRACTIONAL as int) > u128::MAX ==> r == Err::<
            u128,
            Error,
        >(Error::ArithmeticError),
        amount * tax_rate.atoms / (DECIMAL_FRACTIONAL as int) <= u128::MAX && tax_of(
            amount as int,
            tax_rate,
            tax_cap as int,
        ) > amount ==> r == Err::<u128, Error>(Error::ArithmeticError),
        amount * tax_rate.atoms / (DECIMAL_FRACTIONAL as int) <= u128::MAX && tax_of(
            amount as int,
            tax_rate,
            tax_cap as int,
        ) <= amount ==> (r matches Ok(v) && v == amount - tax_of(
            amount as int,
            tax_rate,
            tax_cap as int,
        )),
{
    let raw = match tax_rate.mul_uint(amount) {
        Ok(v) => v,
        Err(e) => {
            return Err(e);
        },
    };
    let tax = if raw <= tax_cap {
        raw
    } else {
        tax_cap
    };
    match amount.checked_sub(tax) {
        Some(v) => Ok(v),
        None => Err(Error::ArithmeticError),
    }
}

/// Whether the pool can cover a redemption. The downstream transfer is what
/// actually fails on the ledger; this is the same check, stated up front so a
/// host can refuse the invocation atomically.
pub fn check_liquidity(pool_balance: u128, redeem_amount: u128) -> (r: Result<(), Error>)
    ensures
        redeem_amount <= pool_balance <==> r == Ok::<(), Error>(()),
        redeem_amount > pool_balance <==> r == Err::<(), Error>(Error::InsufficientLiquidity),
{
    if redeem_amount > pool_balance {
        Err(Error::InsufficientLiquidity)
    } else {
        Ok(())
    }
}


// ---------------------------------------------------------------------------
// Deposit and redeem
// ---------------------------------------------------------------------------

proof fn lemma_sent_skip(funds: Seq<Coin>, denom: Seq<u8>, i: int)
    requires
        0 <= i <= funds.len(),
        forall|j: int| 0 <= j < i ==> (#[trigger] funds[j]).denom@ != denom,
    ensures
        sent_base_amount(funds, denom) == sent_base_amount(funds.skip(i), denom),
    decreases i,
{
    if i > 0 {
        lemma_sent_skip(funds.skip(1), denom, i - 1);
        assert(funds.skip(1).skip(i - 1) =~= funds.skip(i));
    } else {
        assert(funds.skip(0) =~= funds);
    }
}

/// The base-denomination amount sent along with the call.
pub fn sent_amount(funds: &Vec<Coin>, denom: &Vec<u8>) -> (r: u128)
    ensures
        r == sent_base_amount(funds@, denom@),
{
    let n = funds.len();
    let mut i: usize = 0;
    while i < n
        invariant
            i <= n,
            n == funds@.len(),
            forall|j: int| 0 <= j < i ==> (#[trigger] funds@[j]).denom@ != denom@,
        decreases n - i,
    {
        if bytes_eq(&funds[i].denom, denom) {
            proof {
                lemma_sent_skip(funds@, denom@, i as int);
                assert(funds@.skip(i as int)[0] == funds@[i as int]);
            }
            return funds[i].amount;
        }
        i = i + 1;
    }
    proof {
        lemma_sent_skip(funds@, denom@, i as int);
    }
    0
}

/// Accrual with zero elapsed blocks leaves the state exactly as it was.
pub proof fn lemma_accrual_noop(st: State, reserve_factor: Decimal, borrow_rate: Decimal)
    ensures
        accrued_state(st, reserve_factor, borrow_rate, st.last_interest_updated) == st,
{
    vstd::arithmetic::div_mod::lemma_div_multiples_vanish(
        st.global_interest_index.atoms as int,
        DECIMAL_FRACTIONAL as int,
    );
    assert(st.global_interest_index.atoms * (DECIMAL_FRACTIONAL as int) == (
    DECIMAL_FRACTIONAL as int) * st.global_interest_index.atoms);
    let h = st.last_interest_updated;
    assert(passed_rate_atoms(st, borrow_rate, h) == 0);
    assert(accrued_interest_atoms(st, borrow_rate, h) == 0);
    let a = accrued_state(st, reserve_factor, borrow_rate, h);
    assert(a.total_liabilities == st.total_liabilities) by {
        assert(a.total_liabilities.atoms == st.total_liabilities.atoms);
    };
    assert(a.total_reserves == st.total_reserves) by {
        assert(a.total_reserves.atoms == st.total_reserves.atoms);
    };
    assert(a.global_interest_index == st.global_interest_index) by {
        assert(a.global_interest_index.atoms == st.global_interest_index.atoms);
    };
    assert(accrued_state(st, reserve_factor, borrow_rate, st.last_interest_updated) =~= st);
}

/// Whether height `h` admits the accrual step: either nothing has elapsed or
/// every intermediate fits.
pub open spec fn accrual_admits(st: State, reserve_factor: Decimal, borrow_rate: Decimal, h: u64) -> bool {
    h == st.last_interest_updated || accrual_ok(st, reserve_factor, borrow_rate, h)
}

/// Deposit the base asset sent along with the call and mint receipt tokens
/// for it at the post-accrual exchange rate; a stale rate can never drive the
/// mint, because the rate is recomputed here from the freshly accrued state.
/// Fails with `InvalidInput` when no base-asset amount was sent. All effects
/// are the returned requests; the state is written only on success.
pub fn deposit_stable(
    config: &Config,
    state: &mut State,
    env: &Env,
    borrow_rate: Decimal,
    aterra_supply: u128,
    balance: u128,
) -> (r: Result<Vec<Request>, Error>)
    requires
        env.block_height >= old(state).last_interest_updated,
    ensures
        r is Err ==> *final(state) == *old(state),
        sent_base_amount(env.sent_funds@, config.stable_denom@) == 0 ==> r == Err::<
            Vec<Request>,
            Error,
        >(Error::InvalidInput),
        ({
            let amount = sent_base_amount(env.sent_funds@, config.stable_denom@);
            amount != 0 && !accrual_admits(
                *old(state),
                config.reserve_factor,
                borrow_rate,
                env.block_height,
            ) ==> r == Err::<Vec<Request>, Error>(Error::ArithmeticError)
        }),
        ({
            let amount = sent_base_amount(env.sent_funds@, config.stable_denom@);
            let st1 = accrued_state(
                *old(state),
                config.reserve_factor,
                borrow_rate,
                env.block_height,
            );
            amount != 0 && accrual_admits(
                *old(state),
                config.reserve_factor,
                borrow_rate,
                env.block_height,
            ) && !rate_ok(st1, balance as int, aterra_supply as int) ==> r == Err::<
                Vec<Request>,
                Error,
            >(Error::ArithmeticError)
        }),
        ({
            let amount = sent_base_amount(env.sent_funds@, config.stable_denom@);
            let st1 = accrued_state(
                *old(state),
                config.reserve_factor,
                borrow_rate,
                env.block_height,
            );
            let rate = exchange_rate_atoms(st1, balance as int, aterra_supply as int);
            amount != 0 && accrual_admits(
                *old(state),
                config.reserve_factor,
                borrow_rate,
                env.block_height,
            ) && rate_ok(st1, balance as int, aterra_supply as int) && rate == 0 ==> r == Err::<
                Vec<Request>,
                Error,
            >(Error::DivisionByZero)
        }),
        ({
            let amount = sent_base_amount(env.sent_funds@, config.stable_denom@);
            let st1 = accrued_state(
                *old(state),
                config.reserve_factor,
                borrow_rate,
                env.block_height,
            );
            let rate = exchange_rate_atoms(st1, balance as int, aterra_supply as int);
            amount != 0 && accrual_admits(
                *old(state),
                config.reserve_factor,
                borrow_rate,
                env.block_height,
            ) && rate_ok(st1, balance as int, aterra_supply as int) && rate != 0 && mint_amount_of(
                amount,
                rate,
            ) > u128::MAX ==> r == Err::<Vec<Request>, Error>(Error::ArithmeticError)
        }),
        ({
            let amount = sent_base_amount(env.sent_funds@, config.stable_denom@);
            let st1 = accrued_state(
                *old(state),
                config.reserve_factor,
                borrow_rate,
                env.block_height,
            );
            let rate = exchange_rate_atoms(st1, balance as int, aterra_supply as int);
            amount != 0 && accrual_admits(
                *old(state),
                config.reserve_factor,
                borrow_rate,
                env.block_height,
            ) && rate_ok(st1, balance as int, aterra_supply as int) && rate != 0 && mint_amount_of(
                amount,
                rate,
            ) <= u128::MAX ==> (r matches Ok(reqs)
                && *final(state) == st1 && reqs@.len() == 1 && (reqs@[0] matches Request::Mint {
                recipient,
                amount: m,
            } && recipient@ == env.sender@ && m == mint_amount_of(amount, rate)))
        }),
{
    let amount = sent_amount(&env.sent_funds, &config.stable_denom);
    if amount == 0 {
        return Err(Error::InvalidInput);
    }
    let mut st = *state;
    match compute_interest(config, &mut st, env.block_height, borrow_rate) {
        Ok(()) => {},
        Err(e) => {
            return Err(e);
        },
    }
    proof {
        if env.block_height == old(state).last_interest_updated {
            lemma_accrual_noop(*old(state), config.reserve_factor, borrow_rate);
        }
    }
    let exchange_rate = match compute_exchange_rate(&st, aterra_supply, balance) {
        Ok(v) => v,
        Err(e) => {
            return Err(e);
        },
    };
    let reversed = match reverse_decimal(exchange_rate) {
        Ok(v) => v,
        Err(e) => {
            return Err(e);
        },
    };
    let mint_amount = match reversed.mul_uint(amount) {
        Ok(v) => v,
        Err(e) => {
            return Err(e);
        },
    };
    let mut requests: Vec<Request> = Vec::new();
    requests.push(Request::Mint { recipient: copy_bytes(&env.sender), amount: mint_amount });
    *state = st;
    Ok(requests)
}

/// Redeem `burn_amount` receipt tokens from `env.sender` at the post-accrual
/// exchange rate: burn the receipt tokens and transfer the redeemed base
/// asset, net of the ledger transfer tax, back to the sender. The state is
/// written only on success.
pub fn redeem_stable(
    config: &Config,
    state: &mut State,
    env: &Env,
    burn_amount: u128,
    borrow_rate: Decimal,
    aterra_supply: u128,
    balance: u128,
    tax_rate: Decimal,
    tax_cap: u128,
) -> (r: Result<Vec<Request>, Error>)
    requires
        env.block_height >= old(state).last_interest_updated,
    ensures
        r is Err ==> *final(state) == *old(state),
        !accrual_admits(*old(state), config.reserve_factor, borrow_rate, env.block_height) ==> r
            == Err::<Vec<Request>, Error>(Error::ArithmeticError),
        ({
            let st1 = accrued_state(
                *old(state),
                config.reserve_factor,
                borrow_rate,
                env.block_height,
            );
            accrual_admits(*old(state), config.reserve_factor, borrow_rate, env.block_height)
                && !rate_ok(st1, balance as int, aterra_supply as int) ==> r == Err::<
                Vec<Request>,
                Error,
            >(Error::ArithmeticError)
        }),
        ({
            let st1 = accrued_state(
                *old(state),
                config.reserve_factor,
                borrow_rate,
                env.block_height,
            );
            let rate = exchange_rate_atoms(st1, balance as int, aterra_supply as int);
            accrual_admits(*old(state), config.reserve_factor, borrow_rate, env.block_height)
                && rate_ok(st1, balance as int, aterra_supply as int) && redeem_amount_of(
                burn_amount as int,
                rate,
            ) > u128::MAX ==> r == Err::<Vec<Request>, Error>(Error::ArithmeticError)
        }),
        ({
            let st1 = accrued_state(
                *old(state),
                config.reserve_factor,
                borrow_rate,
                env.block_height,
            );
            let rate = exchange_rate_atoms(st1, balance as int, aterra_supply as int);
            let red = redeem_amount_of(burn_amount as int, rate);
            accrual_admits(*old(state), config.reserve_factor, borrow_rate, env.block_height)
                && rate_ok(st1, balance as int, aterra_supply as int) && red <= u128::MAX && (red
                * tax_rate.atoms / (DECIMAL_FRACTIONAL as int) > u128::MAX || tax_of(
                red,
                tax_rate,
                tax_cap as int,
            ) > red) ==> r == Err::<Vec<Request>, Error>(Error::ArithmeticError)
        }),
        ({
            let st1 = accrued_state(
                *old(state),
                config.reserve_factor,
                borrow_rate,
                env.block_height,
            );
            let rate = exchange_rate_atoms(st1, balance as int, aterra_supply as int);
            let red = redeem_amount_of(burn_amount as int, rate);
            accrual_admits(*old(state), config.reserve_factor, borrow_rate, env.block_height)
                && rate_ok(st1, balance as int, aterra_supply as int) && red <= u128::MAX && red
                * tax_rate.atoms / (DECIMAL_FRACTIONAL as int) <= u128::MAX && tax_of(
                red,
                tax_rate,
                tax_cap as int,
            ) <= red ==> (r matches Ok(reqs) && *final(state) == st1 && reqs@.len() == 2 && (
            reqs@[0] matches Request::Burn { amount: b } && b == burn_amount) && (reqs@[1]
                matches Request::TransferBaseAsset { to, amount: a } && to@ == env.sender@ && a
                == red - tax_of(red, tax_rate, tax_cap as int)))
        }),
{
    let mut st = *state;
    match compute_interest(config, &mut st, env.block_height, borrow_rate) {
        Ok(()) => {},
        Err(e) => {
            return Err(e);
        },
    }
    proof {
        if env.block_height == old(state).last_interest_updated {
            lemma_accrual_noop(*old(state), config.reserve_factor, borrow_rate);
        }
    }
    let exchange_rate = match compute_exchange_rate(&st, aterra_supply, balance) {
        Ok(v) => v,
        Err(e) => {
            return Err(e);
        },
    };
    let redeem_amount = match exchange_rate.mul_uint(burn_amount) {
        Ok(v) => v,
        Err(e) => {
            return Err(e);
        },
    };
    let send_amount = match deduct_tax(redeem_amount, tax_rate, tax_cap) {
        Ok(v) => v,
        Err(e) => {
            return Err(e);
        },
    };
    let mut requests: Vec<Request> = Vec::new();
    requests.push(Request::Burn { amount: burn_amount });
    requests.push(Request::TransferBaseAsset { to: copy_bytes(&env.sender), amount: send_amount });
    *state = st;
    Ok(requests)
}


// ---------------------------------------------------------------------------
// Liabilities query
// ---------------------------------------------------------------------------

/// One borrower's liability record, keyed by the borrower address.
#[derive(Debug)]
pub struct BorrowerInfoResponse {
    pub borrower: Addr,
    pub interest_index: Decimal,
    pub reward_index: Decimal,
    pub loan_amount: u128,
    pub pending_rewards: Decimal,
}

pub struct BorrowerInfosResponse {
    pub borrower_infos: Vec<BorrowerInfoResponse>,
}

/// `info` reports exactly the stored entry `e`.
pub open spec fn info_matches(info: BorrowerInfoResponse, e: (Seq<u8>, Liability)) -> bool {
    &&& info.borrower@ == e.0
    &&& info.interest_index == e.1.interest_index
    &&& info.reward_index == e.1.reward_index
    &&& info.loan_amount == e.1.loan_amount
    &&& info.pending_rewards == e.1.pending_rewards
}


/// The byte view of an optional start key.
pub open spec fn opt_key_view(start: Option<&Vec<u8>>) -> Option<Seq<u8>> {
    match start {
        Option::Some(s) => Option::Some(s@),
        Option::None => Option::None,
    }
}

/// Query liability records in ascending borrower-key order, starting strictly
/// after `start_after` when given, answering at most `limit` (default 10,
/// capped at 30) records.
pub fn query_liabilities(
    liabilities: &Bucket<Liability>,
    start_after: Option<&Vec<u8>>,
    limit: Option<u32>,
) -> (r: BorrowerInfosResponse)
    requires
        keys_sorted(liabilities@),
    ensures
        exists|lo: int|
            #[trigger] page_start_ok(liabilities@, opt_key_view(start_after), lo)
                && r.borrower_infos@.len() == page_len(limit, liabilities@.len() - lo) && (forall|
                k: int,
            |
                0 <= k < r.borrower_infos@.len() ==> info_matches(
                    #[trigger] r.borrower_infos@[k],
                    liabilities@[lo + k],
                )),
{
    let lo: usize = match start_after {
        Some(s) => liabilities.first_index_after(s),
        None => 0,
    };
    let lim_u32: u32 = match limit {
        Some(l) => if l <= 30 {
            l
        } else {
            30
        },
        None => 10,
    };
    let lim = lim_u32 as usize;
    let n = liabilities.len();
    let remaining = n - lo;
    let count = if lim <= remaining {
        lim
    } else {
        remaining
    };
    let mut infos: Vec<BorrowerInfoResponse> = Vec::new();
    let mut k: usize = 0;
    while k < count
        invariant
            k <= count,
            n == liabilities@.len(),
            lo + count <= n,
            infos@.len() == k,
            forall|p: int|
                0 <= p < k ==> info_matches(#[trigger] infos@[p], liabilities@[lo + p]),
        decreases count - k,
    {
        let key = copy_bytes(liabilities.key_at(lo + k));
        let v = *liabilities.val_at(lo + k);
        infos.push(
            BorrowerInfoResponse {
                borrower: key,
                interest_index: v.interest_index,
                reward_index: v.reward_index,
                loan_amount: v.loan_amount,
                pending_rewards: v.pending_rewards,
            },
        );
        k = k + 1;
    }
    proof {
        assert(page_start_ok(liabilities@, opt_key_view(start_after), lo as int));
        assert(infos@.len() == page_len(limit, liabilities@.len() - lo));
    }
    BorrowerInfosResponse { borrower_infos: infos }
}

// ---------------------------------------------------------------------------
// Exchange-rate laws
// ---------------------------------------------------------------------------

/// Deposits alone never move the exchange rate: when the minted amount is in
/// exact proportion to the deposit — `mint / supply == deposit / pool` as
/// rationals — the post-deposit pool-per-supply ratio equals the pre-deposit
/// one, stated cross-multiplied. The rate moves only through accrual, which
/// changes the pool with the supply untouched.
pub proof fn lemma_deposit_keeps_rate(pool: int, supply: int, deposit: int, mint: int)
    requires
        mint * pool == deposit * supply,
    ensures
        (pool + deposit) * supply == pool * (supply + mint),
{
    assert((pool + deposit) * supply == pool * supply + deposit * supply) by (nonlinear_arith);
    assert(pool * (supply + mint) == pool * supply + pool * mint) by (nonlinear_arith);
    assert(pool * mint == mint * pool) by (nonlinear_arith);
}

/// Redemptions alone never move the exchange rate: when the redeemed amount
/// is in exact proportion to the burned receipt tokens, the post-redemption
/// pool-per-supply ratio equals the pre-redemption one, cross-multiplied.
pub proof fn lemma_redeem_keeps_rate(pool: int, supply: int, burn: int, redeem: int)
    requires
        redeem * supply == burn * pool,
    ensures
        (pool - redeem) * supply == pool * (supply - burn),
{
    assert((pool - redeem) * supply == pool * supply - redeem * supply) by (nonlinear_arith);
    assert(pool * (supply - burn) == pool * supply - pool * burn) by (nonlinear_arith);
    assert(pool * burn == burn * pool) by (nonlinear_arith);
}

/// At an exchange rate of exactly one whole unit — the pool value in exact
/// proportion to the supply, as in a fresh market — a deposit mints exactly
/// its own amount and leaves the recomputed exchange rate at exactly one.
/// With truncation, a rate away from one can round the minted amount, and the
/// recomputed rate with it.
pub proof fn lemma_deposit_at_unit_rate(st: State, balance: int, supply: int, deposit: int)
    requires
        balance >= 0,
        supply >= 0,
        deposit > 0,
        pool_atoms(st, balance) == supply * DECIMAL_FRACTIONAL,
    ensures
        exchange_rate_atoms(st, balance, supply) == DECIMAL_FRACTIONAL,
        mint_amount_of(deposit, DECIMAL_FRACTIONAL as int) == deposit,
        exchange_rate_atoms(st, balance + deposit, supply + deposit) == DECIMAL_FRACTIONAL,
{
    if supply != 0 {
        vstd::arithmetic::div_mod::lemma_div_multiples_vanish(
            DECIMAL_FRACTIONAL as int,
            supply,
        );
        assert(supply * (DECIMAL_FRACTIONAL as int) / supply == DECIMAL_FRACTIONAL);
    }
    assert((DECIMAL_FRACTIONAL_SQUARED as int) / (DECIMAL_FRACTIONAL as int) == (
    DECIMAL_FRACTIONAL as int));
    vstd::arithmetic::div_mod::lemma_div_by_multiple(deposit, DECIMAL_FRACTIONAL as int);
    assert(mint_amount_of(deposit, DECIMAL_FRACTIONAL as int) == deposit * (
    DECIMAL_FRACTIONAL as int) / (DECIMAL_FRACTIONAL as int));
    assert(pool_atoms(st, balance + deposit) == (supply + deposit) * DECIMAL_FRACTIONAL);
    vstd::arithmetic::div_mod::lemma_div_multiples_vanish(
        DECIMAL_FRACTIONAL as int,
        supply + deposit,
    );
    assert((supply + deposit) * (DECIMAL_FRACTIONAL as int) / (supply + deposit)
        == DECIMAL_FRACTIONAL);
}


/// Round trip at an exchange rate of exactly one: depositing `deposit` and
/// immediately redeeming the minted receipt tokens — against the post-deposit
/// pool and supply, with no accrual in between and no transfer tax — returns
/// exactly `deposit`. Away from an exact rate the truncating conversions can
/// return less.
pub proof fn lemma_round_trip_at_unit_rate(st: State, balance: int, supply: int, deposit: int)
    requires
        balance >= 0,
        supply >= 0,
        deposit > 0,
        pool_atoms(st, balance) == supply * DECIMAL_FRACTIONAL,
    ensures
        redeem_amount_of(
            mint_amount_of(deposit, exchange_rate_atoms(st, balance, supply)),
            exchange_rate_atoms(st, balance + deposit, supply + deposit),
        ) == deposit,
{
    lemma_deposit_at_unit_rate(st, balance, supply, deposit);
    vstd::arithmetic::div_mod::lemma_div_by_multiple(deposit, DECIMAL_FRACTIONAL as int);
}


// ---------------------------------------------------------------------------
// Inbound messages and query responses
// ---------------------------------------------------------------------------

/// A receipt-token transfer delivered to the market together with an
/// instruction payload from its sender.
pub struct Cw20ReceiveMsg {
    pub sender: Addr,
    pub amount: u128,
    pub msg: Vec<u8>,
}

/// Instantiation parameters of the market contract.
pub struct InitMsg {
    /// Owner address for config update.
    pub owner_addr: Addr,
    /// The contract holding the borrow interest-rate model.
    pub interest_model: Addr,
    /// The contract holding the reward distribution model.
    pub distribution_model: Addr,
    /// Collector contract the reserves are sent to.
    pub collector_contract: Addr,
    /// Faucet contract that drips the reward token.
    pub faucet_contract: Addr,
    /// Base denomination used to deposit, borrow and repay.
    pub stable_denom: Vec<u8>,
    /// Reserve ratio applied to accrued interest.
    pub reserve_factor: Decimal,
    /// Receipt-token code id used to instantiate.
    pub aterra_code_id: u64,
    /// Reward token emission rate.
    pub anc_emission_rate: Decimal,
    /// Maximum borrow factor.
    pub max_borrow_factor: Decimal,
}

/// Inbound operations of the market contract.
pub enum HandleMsg {
    Receive(Cw20ReceiveMsg),
    RegisterOverseer { overseer_contract: Addr },
    RegisterATerra {},
    UpdateConfig {
        owner_addr: Option<Addr>,
        reserve_factor: Option<Decimal>,
        interest_model: Option<Addr>,
        distribution_model: Option<Addr>,
    },
    RepayStableFromLiquidation { borrower: Addr, prev_balance: u128 },
    ExecuteEpochOperations { target_deposit_rate: Decimal, deposit_rate: Decimal },
    DepositStable {},
    BorrowStable { borrow_amount: u128, to: Option<Addr> },
    RepayStable {},
    ClaimRewards { to: Option<Addr> },
}

/// Instructions a receipt-token transfer can carry.
pub enum Cw20HookMsg {
    /// Return base asset to a user according to the exchange rate.
    RedeemStable {},
}

/// Read-only queries of the market contract.
pub enum QueryMsg {
    Config {},
    State {},
    EpochState { block_height: Option<u64> },
    BorrowerInfo { borrower: Addr, block_height: Option<u64> },
    Liabilities { start_after: Option<Addr>, limit: Option<u32> },
}

pub struct ConfigResponse {
    pub owner_addr: Addr,
    pub aterra_contract: Addr,
    pub interest_model: Addr,
    pub distribution_model: Addr,
    pub overseer_contract: Addr,
    pub collector_contract: Addr,
    pub faucet_contract: Addr,
    pub stable_denom: Vec<u8>,
    pub reserve_factor: Decimal,
    pub max_borrow_factor: Decimal,
}

pub struct StateResponse {
    pub total_liabilities: Decimal,
    pub total_reserves: Decimal,
    pub last_interest_updated: u64,
    pub last_reward_updated: u64,
    pub global_interest_index: Decimal,
    pub global_reward_index: Decimal,
    pub anc_emission_rate: Decimal,
}

/// The market's exchange-rate snapshot the overseer reads each epoch.
#[derive(Clone, Copy, Debug, PartialEq, Eq, Structural)]
pub struct EpochStateResponse {
    pub exchange_rate: Decimal,
    pub aterra_supply: u128,
}


/// The exchange rate never falls through accrual: with the reserve factor at
/// most one, accrual adds at least as much to the liabilities as it adds to
/// the reserves, so the pool value — and with it the rate over any unchanged
/// supply — is monotonically non-decreasing.
pub proof fn lemma_accrual_never_decreases_rate(
    st: State,
    reserve_factor: Decimal,
    borrow_rate: Decimal,
    h: u64,
    balance: int,
    supply: int,
)
    requires
        reserve_factor.atoms <= DECIMAL_FRACTIONAL,
        h >= st.last_interest_updated,
        accrual_ok(st, reserve_factor, borrow_rate, h),
        supply >= 0,
    ensures
        exchange_rate_atoms(accrued_state(st, reserve_factor, borrow_rate, h), balance, supply)
            >= exchange_rate_atoms(st, balance, supply),
{
    let st1 = accrued_state(st, reserve_factor, borrow_rate, h);
    let acc = accrued_interest_atoms(st, borrow_rate, h);
    vstd::arithmetic::div_mod::lemma_div_pos_is_pos(
        st.total_liabilities.atoms * passed_rate_atoms(st, borrow_rate, h),
        DECIMAL_FRACTIONAL as int,
    );
    assert(acc >= 0);
    assert(reserve_factor.atoms * acc <= DECIMAL_FRACTIONAL * acc) by (nonlinear_arith)
        requires
            acc >= 0,
            reserve_factor.atoms <= DECIMAL_FRACTIONAL,
    ;
    vstd::arithmetic::div_mod::lemma_div_is_ordered(
        reserve_factor.atoms * acc,
        (DECIMAL_FRACTIONAL as int) * acc,
        DECIMAL_FRACTIONAL as int,
    );
    vstd::arithmetic::div_mod::lemma_div_multiples_vanish(acc, DECIMAL_FRACTIONAL as int);
    assert(reserve_factor.atoms * acc / (DECIMAL_FRACTIONAL as int) <= acc);
    assert(pool_atoms(st1, balance) >= pool_atoms(st, balance));
    if supply != 0 {
        vstd::arithmetic::div_mod::lemma_div_is_ordered(
            pool_atoms(st, balance),
            pool_atoms(st1, balance),
            supply,
        );
    }
}


/// Answer the config query.
pub fn query_config(config: &Config) -> (r: ConfigResponse)
    ensures
        r.owner_addr@ == config.owner_addr@,
        r.aterra_contract@ == config.aterra_contract@,
        r.interest_model@ == config.interest_model@,
        r.distribution_model@ == config.distribution_model@,
        r.overseer_contract@ == config.overseer_contract@,
        r.collector_contract@ == config.collector_contract@,
        r.faucet_contract@ == config.faucet_contract@,
        r.stable_denom@ == config.stable_denom@,
        r.reserve_factor == config.reserve_factor,
        r.max_borrow_factor == config.max_borrow_factor,
{
    ConfigResponse {
        owner_addr: copy_bytes(&config.owner_addr),
        aterra_contract: copy_bytes(&config.aterra_contract),
        interest_model: copy_bytes(&config.interest_model),
        distribution_model: copy_bytes(&config.distribution_model),
        overseer_contract: copy_bytes(&config.overseer_contract),
        collector_contract: copy_bytes(&config.collector_contract),
        faucet_contract: copy_bytes(&config.faucet_contract),
        stable_denom: copy_bytes(&config.stable_denom),
        reserve_factor: config.reserve_factor,
        max_borrow_factor: config.max_borrow_factor,
    }
}

/// Answer the state query.
pub fn query_state(state: &State) -> (r: StateResponse)
    ensures
        r.total_liabilities == state.total_liabilities,
        r.total_reserves == state.total_reserves,
        r.last_interest_updated == state.last_interest_updated,
        r.last_reward_updated == state.last_reward_updated,
        r.global_interest_index == state.global_interest_index,
        r.global_reward_index == state.global_reward_index,
        r.anc_emission_rate == state.anc_emission_rate,
{
    StateResponse {
        total_liabilities: state.total_liabilities,
        total_reserves: state.total_reserves,
        last_interest_updated: state.last_interest_updated,
        last_reward_updated: state.last_reward_updated,
        global_interest_index: state.global_interest_index,
        global_reward_index: state.global_reward_index,
        anc_emission_rate: state.anc_emission_rate,
    }
}

/// Answer the epoch-state query: the exchange rate derived from the given
/// state and the queried supply and balance, exactly as minting and
/// redemption would compute it.
pub fn query_epoch_state(state: &State, aterra_supply: u128, balance: u128) -> (r: Result<
    EpochStateResponse,
    Error,
>)
    ensures
        aterra_supply == 0 ==> (r matches Ok(e) && e.exchange_rate.atoms == DECIMAL_FRACTIONAL
            && e.aterra_supply == 0),
        aterra_supply != 0 && rate_ok(*state, balance as int, aterra_supply as int) ==> (r matches Ok(e)
            && e.exchange_rate.atoms == exchange_rate_atoms(
            *state,
            balance as int,
            aterra_supply as int,
        ) && e.aterra_supply == aterra_supply),
        aterra_supply != 0 && !rate_ok(*state, balance as int, aterra_supply as int) ==> r
            == Err::<EpochStateResponse, Error>(Error::ArithmeticError),
{
    match compute_exchange_rate(state, aterra_supply, balance) {
        Ok(rate) => Ok(EpochStateResponse { exchange_rate: rate, aterra_supply }),
        Err(e) => Err(e),
    }
}

/// Answer the borrower-info query for one borrower; `NotFound` when the
/// borrower has no liability record.
pub fn query_borrower_info(liabilities: &Bucket<Liability>, borrower: &Vec<u8>) -> (r: Result<
    BorrowerInfoResponse,
    Error,
>)
    ensures
        !crate::store::has_key(liabilities@, borrower@) ==> r == Err::<
            BorrowerInfoResponse,
            Error,
        >(Error::NotFound),
        crate::store::has_key(liabilities@, borrower@) ==> (r matches Ok(info) && info.borrower@
            == borrower@ && exists|i: int|
            0 <= i < liabilities@.len() && (#[trigger] liabilities@[i]).0 == borrower@
                && info_matches(info, liabilities@[i])),
{
    match liabilities.get(borrower) {
        Some(v) => {
            let liability = *v;
            Ok(
                BorrowerInfoResponse {
                    borrower: copy_bytes(borrower),
                    interest_index: liability.interest_index,
                    reward_index: liability.reward_index,
                    loan_amount: liability.loan_amount,
                    pending_rewards: liability.pending_rewards,
                },
            )
        },
        None => Err(Error::NotFound),
    }
}

} // verus!
