use moneymarket::dec::{Decimal, DECIMAL_FRACTIONAL};
use moneymarket::market::{
    check_liquidity, compute_exchange_rate, compute_interest, deduct_tax, deposit_stable,
    query_borrower_info, query_epoch_state, query_liabilities, query_state, redeem_stable, Config,
    Liability, State,
};
use moneymarket::store::Bucket;
use moneymarket::{Coin, Env, Error, Request};

fn dec(whole: u128) -> Decimal {
    Decimal { atoms: whole * DECIMAL_FRACTIONAL }
}

fn zero_state() -> State {
    State {
        total_liabilities: Decimal { atoms: 0 },
        total_reserves: Decimal { atoms: 0 },
        last_interest_updated: 0,
        last_reward_updated: 0,
        global_interest_index: dec(1),
        global_reward_index: dec(1),
        anc_emission_rate: Decimal { atoms: 0 },
    }
}

fn test_config() -> Config {
    Config {
        owner_addr: b"owner".to_vec(),
        aterra_contract: b"aterra".to_vec(),
        interest_model: b"interest".to_vec(),
        distribution_model: b"distribution".to_vec(),
        overseer_contract: b"overseer".to_vec(),
        collector_contract: b"collector".to_vec(),
        faucet_contract: b"faucet".to_vec(),
        stable_denom: b"uusd".to_vec(),
        reserve_factor: Decimal { atoms: DECIMAL_FRACTIONAL / 5 },
        max_borrow_factor: dec(1),
    }
}

fn env_with_funds(height: u64, sender: &[u8], amount: u128) -> Env {
    Env {
        block_height: height,
        sender: sender.to_vec(),
        sent_funds: vec![Coin { denom: b"uusd".to_vec(), amount }],
    }
}

#[test]
fn exchange_rate_is_one_with_zero_supply() {
    let state = zero_state();
    let rate = compute_exchange_rate(&state, 0, 12345).unwrap();
    assert_eq!(rate.atoms, DECIMAL_FRACTIONAL);
}

#[test]
fn exchange_rate_formula() {
    let mut state = zero_state();
    state.total_liabilities = dec(50);
    state.total_reserves = dec(10);
    // (100 + 50 - 10) / 70 = 2
    let rate = compute_exchange_rate(&state, 70, 100).unwrap();
    assert_eq!(rate, dec(2));
}

#[test]
fn exchange_rate_fails_when_reserves_exceed_pool() {
    let mut state = zero_state();
    state.total_reserves = dec(10);
    assert_eq!(compute_exchange_rate(&state, 5, 3), Err(Error::ArithmeticError));
}

#[test]
fn deposit_zero_amount_is_rejected() {
    let config = test_config();
    let mut state = zero_state();
    let env = env_with_funds(0, b"alice", 0);
    let r = deposit_stable(&config, &mut state, &env, Decimal { atoms: 0 }, 0, 0);
    assert_eq!(r.unwrap_err(), Error::InvalidInput);
}

#[test]
fn deposit_without_base_denom_is_rejected() {
    let config = test_config();
    let mut state = zero_state();
    let env = Env {
        block_height: 0,
        sender: b"alice".to_vec(),
        sent_funds: vec![Coin { denom: b"ukrw".to_vec(), amount: 100 }],
    };
    let r = deposit_stable(&config, &mut state, &env, Decimal { atoms: 0 }, 0, 0);
    assert_eq!(r.unwrap_err(), Error::InvalidInput);
}

#[test]
fn deposit_in_fresh_market_mints_one_to_one() {
    let config = test_config();
    let mut state = zero_state();
    let env = env_with_funds(0, b"alice", 100);
    let reqs = deposit_stable(&config, &mut state, &env, Decimal { atoms: 0 }, 0, 0).unwrap();
    assert_eq!(reqs.len(), 1);
    match &reqs[0] {
        Request::Mint { recipient, amount } => {
            assert_eq!(recipient, &b"alice".to_vec());
            assert_eq!(*amount, 100);
        },
        _ => panic!("expected a mint request"),
    }
}

#[test]
fn round_trip_deposit_then_redeem_returns_exactly_the_deposit() {
    let config = test_config();
    let mut state = zero_state();
    // Deposit 100 into a fresh market: rate is exactly one, 100 are minted.
    let env = env_with_funds(0, b"alice", 100);
    let reqs = deposit_stable(&config, &mut state, &env, Decimal { atoms: 0 }, 0, 0).unwrap();
    let minted = match &reqs[0] {
        Request::Mint { amount, .. } => *amount,
        _ => panic!("expected a mint request"),
    };
    assert_eq!(minted, 100);
    // Redeem the minted amount in the same block, with the deposit now in the
    // pool, the minted tokens outstanding, and a zero transfer tax.
    let env2 = env_with_funds(0, b"alice", 0);
    let reqs2 = redeem_stable(
        &config,
        &mut state,
        &env2,
        minted,
        Decimal { atoms: 0 },
        minted,
        100,
        Decimal { atoms: 0 },
        0,
    )
    .unwrap();
    assert_eq!(reqs2.len(), 2);
    match &reqs2[0] {
        Request::Burn { amount } => assert_eq!(*amount, 100),
        _ => panic!("expected a burn request"),
    }
    match &reqs2[1] {
        Request::TransferBaseAsset { to, amount } => {
            assert_eq!(to, &b"alice".to_vec());
            assert_eq!(*amount, 100);
        },
        _ => panic!("expected a transfer request"),
    }
}

#[test]
fn interest_accrual_compounds_liabilities_reserves_and_index() {
    let config = test_config();
    let mut state = zero_state();
    state.total_liabilities = dec(1000);
    // 0.01 per block, 10 blocks elapsed: period rate 0.1.
    let borrow_rate = Decimal { atoms: DECIMAL_FRACTIONAL / 100 };
    compute_interest(&config, &mut state, 10, borrow_rate).unwrap();
    assert_eq!(state.total_liabilities, dec(1100));
    assert_eq!(state.total_reserves, dec(20));
    assert_eq!(state.global_interest_index.atoms, 1_100_000_000_000_000_000);
    assert_eq!(state.last_interest_updated, 10);
}

#[test]
fn interest_accrual_is_a_noop_with_zero_elapsed_blocks() {
    let config = test_config();
    let mut state = zero_state();
    state.total_liabilities = dec(1000);
    let before = state;
    compute_interest(&config, &mut state, 0, dec(1)).unwrap();
    assert_eq!(state, before);
}

#[test]
fn deduct_tax_applies_rate_and_cap() {
    // 10% of 1000 is 100, capped at 50.
    let rate = Decimal { atoms: DECIMAL_FRACTIONAL / 10 };
    assert_eq!(deduct_tax(1000, rate, 50).unwrap(), 950);
    // Uncapped.
    assert_eq!(deduct_tax(1000, rate, 1_000_000).unwrap(), 900);
    // Zero tax rate deducts nothing.
    assert_eq!(deduct_tax(1000, Decimal { atoms: 0 }, 50).unwrap(), 1000);
}

#[test]
fn check_liquidity_flags_shortfall() {
    assert!(check_liquidity(100, 100).is_ok());
    assert_eq!(check_liquidity(99, 100), Err(Error::InsufficientLiquidity));
}

fn liability(loan: u128) -> Liability {
    Liability {
        interest_index: Decimal { atoms: DECIMAL_FRACTIONAL },
        reward_index: Decimal { atoms: 0 },
        loan_amount: loan,
        pending_rewards: Decimal { atoms: 0 },
    }
}

#[test]
fn liabilities_pagination_walks_records_in_ascending_key_order() {
    let mut bucket: Bucket<Liability> = Bucket::new();
    // 35 records, inserted out of order; keys are single bytes 0..35.
    for i in (0..35u8).rev() {
        bucket.save(vec![i], liability(i as u128));
    }
    // First page: no start key, limit 30.
    let page1 = query_liabilities(&bucket, None, Some(30));
    assert_eq!(page1.borrower_infos.len(), 30);
    for (k, info) in page1.borrower_infos.iter().enumerate() {
        assert_eq!(info.borrower, vec![k as u8]);
        assert_eq!(info.loan_amount, k as u128);
    }
    // Second page: start strictly after the 30th key.
    let last_key = page1.borrower_infos[29].borrower.clone();
    assert_eq!(last_key, vec![29u8]);
    let page2 = query_liabilities(&bucket, Some(&last_key), Some(30));
    assert_eq!(page2.borrower_infos.len(), 5);
    for (k, info) in page2.borrower_infos.iter().enumerate() {
        assert_eq!(info.borrower, vec![30 + k as u8]);
    }
}

#[test]
fn liabilities_pagination_default_and_cap() {
    let mut bucket: Bucket<Liability> = Bucket::new();
    for i in 0..35u8 {
        bucket.save(vec![i], liability(0));
    }
    assert_eq!(query_liabilities(&bucket, None, None).borrower_infos.len(), 10);
    assert_eq!(query_liabilities(&bucket, None, Some(50)).borrower_infos.len(), 30);
}

#[test]
fn deposit_alone_leaves_exchange_rate_unchanged() {
    let config = test_config();
    let mut state = zero_state();
    let rate_before = compute_exchange_rate(&state, 0, 0).unwrap();
    let env = env_with_funds(0, b"alice", 100);
    deposit_stable(&config, &mut state, &env, Decimal { atoms: 0 }, 0, 0).unwrap();
    // After the deposit the pool holds 100 and 100 receipt tokens exist.
    let rate_after = compute_exchange_rate(&state, 100, 100).unwrap();
    assert_eq!(rate_before, rate_after);
    assert_eq!(rate_after.atoms, DECIMAL_FRACTIONAL);
}

#[test]
fn accrual_never_decreases_exchange_rate() {
    let config = test_config();
    let mut state = zero_state();
    state.total_liabilities = dec(1000);
    let rate_before = compute_exchange_rate(&state, 100, 0).unwrap();
    assert_eq!(rate_before, dec(10));
    let borrow_rate = Decimal { atoms: DECIMAL_FRACTIONAL / 100 };
    compute_interest(&config, &mut state, 10, borrow_rate).unwrap();
    // Liabilities grew by 100, reserves by a fifth of that: the pool gained.
    let rate_after = compute_exchange_rate(&state, 100, 0).unwrap();
    assert!(rate_after.atoms >= rate_before.atoms);
    assert_eq!(rate_after.atoms, 10_800_000_000_000_000_000);
}

#[test]
fn queries_report_the_stored_values() {
    let mut state = zero_state();
    state.total_liabilities = dec(50);
    state.total_reserves = dec(10);
    let sr = query_state(&state);
    assert_eq!(sr.total_liabilities, dec(50));
    assert_eq!(sr.total_reserves, dec(10));
    let er = query_epoch_state(&state, 70, 100).unwrap();
    assert_eq!(er.exchange_rate, dec(2));
    assert_eq!(er.aterra_supply, 70);
    let er0 = query_epoch_state(&zero_state(), 0, 100).unwrap();
    assert_eq!(er0.exchange_rate.atoms, DECIMAL_FRACTIONAL);
}

#[test]
fn borrower_info_query_finds_one_record() {
    let mut bucket: Bucket<Liability> = Bucket::new();
    bucket.save(b"alice".to_vec(), liability(42));
    let info = query_borrower_info(&bucket, &b"alice".to_vec()).unwrap();
    assert_eq!(info.borrower, b"alice".to_vec());
    assert_eq!(info.loan_amount, 42);
    assert_eq!(query_borrower_info(&bucket, &b"bob".to_vec()).unwrap_err(), Error::NotFound);
}

#[test]
fn interest_accrual_succeeds_at_large_balances()  {
    // A trillion whole units of liabilities, a 10^-8 per-block rate, one
    // idle epoch of 86400 blocks: the atom intermediates span well over 128
    // bits, the results do not.
    let config = test_config();
    let mut state = zero_state();
    state.total_liabilities = dec(1_000_000_000_000);
    let borrow_rate = Decimal { atoms: DECIMAL_FRACTIONAL / 100_000_000 };
    compute_interest(&config, &mut state, 86400, borrow_rate).unwrap();
    // Period rate 86400 * 10^-8 = 0.000864.
    assert_eq!(state.total_liabilities, Decimal { atoms: 1_000_864_000_000_000_000_000_000_000_000 });
    assert_eq!(state.total_reserves, Decimal { atoms: 172_800_000_000_000_000_000_000_000 });
    assert_eq!(state.global_interest_index.atoms, 1_000_864_000_000_000_000);
}

#[test]
fn exchange_rate_succeeds_at_large_balances() {
    let state = zero_state();
    let balance: u128 = 1_000_000_000_000_000_000_000_000_000_000;
    let rate = compute_exchange_rate(&state, balance, balance).unwrap();
    assert_eq!(rate.atoms, DECIMAL_FRACTIONAL);
}
