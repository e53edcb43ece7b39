use moneymarket::dec::{Decimal, DECIMAL_FRACTIONAL};
use moneymarket::market::EpochStateResponse;
use moneymarket::overseer::{
    assert_borrow_limit, compute_borrow_limit, compute_epoch_distribution, handle,
    handle_execute_epoch_operations, init, register_whitelist, update_config, HandleMsg, InitMsg,
    LedgerView, OverseerStorage, EPOCH_PERIOD,
};
use moneymarket::{Env, Error, Request};

fn dec(whole: u128) -> Decimal {
    Decimal { atoms: whole * DECIMAL_FRACTIONAL }
}

fn percent(p: u128) -> Decimal {
    Decimal { atoms: p * DECIMAL_FRACTIONAL / 100 }
}

fn test_storage() -> OverseerStorage {
    init(
        InitMsg {
            owner_addr: b"owner".to_vec(),
            oracle_contract: b"oracle".to_vec(),
            market_contract: b"market".to_vec(),
            base_denom: b"uusd".to_vec(),
            distribution_threshold: percent(5),
            target_deposit_rate: percent(10),
            buffer_distribution_rate: percent(50),
        },
        0,
    )
}

fn env_at(height: u64, sender: &[u8]) -> Env {
    Env { block_height: height, sender: sender.to_vec(), sent_funds: vec![] }
}

fn ledger(exchange_rate: Decimal, supply: u128, buffer: u128) -> LedgerView {
    LedgerView {
        market_epoch_state: EpochStateResponse { exchange_rate, aterra_supply: supply },
        interest_buffer: buffer,
        tax_rate: Decimal { atoms: 0 },
        tax_cap: 0,
    }
}

#[test]
fn init_stores_config_and_fresh_epoch_state() {
    let s = test_storage();
    assert_eq!(s.config.owner_addr, b"owner".to_vec());
    assert_eq!(s.config.distribution_threshold, percent(5));
    assert_eq!(s.epoch_state.deposit_rate.atoms, 0);
    assert_eq!(s.epoch_state.prev_a_token_supply, 0);
    assert_eq!(s.epoch_state.prev_exchange_rate, dec(1));
    assert_eq!(s.epoch_state.last_executed_height, 0);
}

#[test]
fn update_config_rejects_non_owner() {
    let mut s = test_storage();
    let r = update_config(&mut s, &b"mallory".to_vec(), None, Some(percent(1)), None, None);
    assert_eq!(r, Err(Error::Unauthorized));
    assert_eq!(s.config.distribution_threshold, percent(5));
}

#[test]
fn update_config_applies_only_supplied_fields() {
    let mut s = test_storage();
    update_config(
        &mut s,
        &b"owner".to_vec(),
        Some(b"newowner".to_vec()),
        None,
        Some(percent(20)),
        None,
    )
    .unwrap();
    assert_eq!(s.config.owner_addr, b"newowner".to_vec());
    assert_eq!(s.config.target_deposit_rate, percent(20));
    // Untouched fields keep their values.
    assert_eq!(s.config.distribution_threshold, percent(5));
    assert_eq!(s.config.buffer_distribution_rate, percent(50));
}

#[test]
fn register_whitelist_rejects_non_owner() {
    let mut s = test_storage();
    let r = register_whitelist(
        &mut s,
        &b"mallory".to_vec(),
        b"btoken".to_vec(),
        b"custody".to_vec(),
        percent(60),
    );
    assert_eq!(r, Err(Error::Unauthorized));
}

#[test]
fn register_whitelist_twice_fails_and_keeps_one_entry() {
    let mut s = test_storage();
    let owner = b"owner".to_vec();
    register_whitelist(&mut s, &owner, b"btoken".to_vec(), b"custody".to_vec(), percent(60))
        .unwrap();
    let second =
        register_whitelist(&mut s, &owner, b"btoken".to_vec(), b"custody2".to_vec(), percent(70));
    assert_eq!(second, Err(Error::DuplicateRegistration));
    assert_eq!(s.whitelist.len(), 1);
}

#[test]
fn epoch_operations_before_period_fails_and_changes_nothing() {
    let mut s = test_storage();
    let before_epoch = s.epoch_state;
    let before_threshold = s.config.distribution_threshold;
    let env = env_at(EPOCH_PERIOD - 1, b"anyone");
    let r = handle_execute_epoch_operations(&mut s, &env, &ledger(dec(1), 0, 0));
    assert_eq!(r.unwrap_err(), Error::EpochNotElapsed);
    assert_eq!(s.epoch_state, before_epoch);
    assert_eq!(s.config.distribution_threshold, before_threshold);
    assert_eq!(s.whitelist.len(), 0);
}

#[test]
fn epoch_distribution_tops_up_shortfall_from_buffer() {
    // threshold 0.05, realized deposit rate (4/1 - 1) / 100 = 0.03;
    // missing rate 0.02; prev deposits 20 * 1 = 20; scaled by 100 blocks
    // = 2000; missing deposits 2000 * 0.02 = 40; buffer share 1000 * 0.5
    // = 500; distributed = min(40, 500) = 40.
    let (rate, distributed) =
        compute_epoch_distribution(percent(5), percent(50), 20, dec(1), dec(4), 100, 1000).unwrap();
    assert_eq!(rate, percent(3));
    assert_eq!(distributed, Some(40));
}

#[test]
fn epoch_distribution_is_capped_by_the_buffer_share() {
    // Same shortfall computation with a small buffer: 10 * 0.5 = 5 caps it.
    let (rate, distributed) =
        compute_epoch_distribution(percent(5), percent(50), 20, dec(1), dec(4), 100, 10).unwrap();
    assert_eq!(rate, percent(3));
    assert_eq!(distributed, Some(5));
}

#[test]
fn epoch_distribution_skips_topup_at_or_above_threshold() {
    // (7 - 1) / 100 = 0.06 >= 0.05: nothing is distributed.
    let (rate, distributed) =
        compute_epoch_distribution(percent(5), percent(50), 20, dec(1), dec(7), 100, 1000).unwrap();
    assert_eq!(rate, percent(6));
    assert_eq!(distributed, None);
}

#[test]
fn epoch_distribution_zero_prev_rate_fails() {
    let r = compute_epoch_distribution(
        percent(5),
        percent(50),
        20,
        Decimal { atoms: 0 },
        dec(4),
        100,
        1000,
    );
    assert_eq!(r, Err(Error::DivisionByZero));
}

#[test]
fn epoch_distribution_negative_yield_fails() {
    // Exchange rate fell: effective rate below one underflows the subtraction.
    let r = compute_epoch_distribution(percent(5), percent(50), 20, dec(2), dec(1), 100, 1000);
    assert_eq!(r, Err(Error::ArithmeticError));
}

#[test]
fn epoch_operations_emits_topup_keeper_and_rewards_and_commits() {
    let mut s = test_storage();
    let owner = b"owner".to_vec();
    register_whitelist(&mut s, &owner, b"atoken".to_vec(), b"custody_a".to_vec(), percent(60))
        .unwrap();
    register_whitelist(&mut s, &owner, b"btoken".to_vec(), b"custody_b".to_vec(), percent(50))
        .unwrap();
    // Realized deposit rate 0 (rate still 1, supply 0): below the threshold,
    // with an empty shortfall, so a zero transfer is still emitted.
    let env = env_at(EPOCH_PERIOD, b"anyone");
    let lv = ledger(dec(2), 700, 1000);
    let reqs = handle_execute_epoch_operations(&mut s, &env, &lv).unwrap();
    assert_eq!(reqs.len(), 4);
    match &reqs[0] {
        Request::TransferBaseAsset { to, amount } => {
            assert_eq!(to, &b"market".to_vec());
            assert_eq!(*amount, 0);
        },
        _ => panic!("expected the buffer transfer first"),
    }
    match &reqs[1] {
        Request::SendKeeperPremium { market } => assert_eq!(market, &b"market".to_vec()),
        _ => panic!("expected the keeper premium"),
    }
    match &reqs[2] {
        Request::DistributeRewards { custody } => assert_eq!(custody, &b"custody_a".to_vec()),
        _ => panic!("expected rewards for the first custody"),
    }
    match &reqs[3] {
        Request::DistributeRewards { custody } => assert_eq!(custody, &b"custody_b".to_vec()),
        _ => panic!("expected rewards for the second custody"),
    }
    // Epoch state committed to the market snapshot.
    assert_eq!(s.epoch_state.last_executed_height, EPOCH_PERIOD);
    assert_eq!(s.epoch_state.prev_exchange_rate, dec(2));
    assert_eq!(s.epoch_state.prev_a_token_supply, 700);
    // Realized per-block rate: (2/1 - 1) / 86400.
    assert_eq!(s.epoch_state.deposit_rate.atoms, DECIMAL_FRACTIONAL / 86400);
}

#[test]
fn epoch_operations_above_threshold_emits_no_transfer() {
    let mut s = test_storage();
    // Previous rate 0.001, current 6: effective rate 6000, realized per-block
    // rate (6000 - 1) / 86400 = 0.0694..., above the 0.05 threshold.
    s.epoch_state.prev_exchange_rate = Decimal { atoms: 1_000_000_000_000_000 };
    let env = env_at(EPOCH_PERIOD, b"anyone");
    let lv = ledger(dec(6), 700, 1000);
    let reqs = handle_execute_epoch_operations(&mut s, &env, &lv).unwrap();
    assert_eq!(reqs.len(), 1);
    assert!(matches!(&reqs[0], Request::SendKeeperPremium { .. }));
    assert_eq!(s.epoch_state.deposit_rate.atoms, 5999 * DECIMAL_FRACTIONAL / 86400);
}

#[test]
fn borrow_limit_sums_ltv_shares_of_collateral_values() {
    // 100 at price 2 with ltv 0.5 -> 100; 30 at price 3 with ltv 0.6 -> 54.
    let collaterals = vec![
        (100u128, dec(2), percent(50)),
        (30u128, dec(3), percent(60)),
    ];
    assert_eq!(compute_borrow_limit(&collaterals).unwrap(), 154);
    assert_eq!(compute_borrow_limit(&vec![]).unwrap(), 0);
}

#[test]
fn borrow_limit_overflow_fails() {
    let collaterals = vec![(u128::MAX, dec(1000), dec(1))];
    assert_eq!(compute_borrow_limit(&collaterals), Err(Error::ArithmeticError));
}

#[test]
fn borrow_over_the_limit_is_rejected() {
    assert!(assert_borrow_limit(154, 154).is_ok());
    assert_eq!(assert_borrow_limit(155, 154), Err(Error::ExceedsBorrowLimit));
}

#[test]
fn handle_routes_operations_and_enforces_authorization() {
    let mut s = test_storage();
    let lv = ledger(dec(1), 0, 0);
    // A non-owner cannot whitelist.
    let refused = handle(
        &mut s,
        &env_at(1, b"mallory"),
        &lv,
        HandleMsg::Whitelist {
            collateral_token: b"btoken".to_vec(),
            custody_contract: b"custody".to_vec(),
            ltv: percent(60),
        },
    );
    assert!(matches!(refused, Err(Error::Unauthorized)));
    // The owner can, and the call emits no requests.
    let ok = handle(
        &mut s,
        &env_at(1, b"owner"),
        &lv,
        HandleMsg::Whitelist {
            collateral_token: b"btoken".to_vec(),
            custody_contract: b"custody".to_vec(),
            ltv: percent(60),
        },
    )
    .unwrap();
    assert!(ok.is_empty());
    assert_eq!(s.whitelist.len(), 1);
    // Config updates route through the same owner check.
    let updated = handle(
        &mut s,
        &env_at(2, b"owner"),
        &lv,
        HandleMsg::UpdateConfig {
            owner_addr: None,
            distribution_threshold: Some(percent(7)),
            target_deposit_rate: None,
            buffer_distribution_rate: None,
        },
    )
    .unwrap();
    assert!(updated.is_empty());
    assert_eq!(s.config.distribution_threshold, percent(7));
    // Epoch operations are time-gated through the router too.
    let early = handle(&mut s, &env_at(3, b"anyone"), &lv, HandleMsg::ExecuteEpochOperations {});
    assert!(matches!(early, Err(Error::EpochNotElapsed)));
}
