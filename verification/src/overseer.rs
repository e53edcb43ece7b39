use vstd::prelude::*;

use crate::dec::{Decimal, DECIMAL_FRACTIONAL};
use crate::market::{tax_of, EpochStateResponse};
use crate::store::{Bucket, keys_sorted, has_key, copy_bytes, bytes_eq};
use crate::{Addr, Env, Error, Request};

verus! {

/// Number of blocks in one epoch period.
pub const EPOCH_PERIOD: u64 = 86400;

/// Overseer contract configuration.
pub struct Config {
    pub owner_addr: Addr,
    pub oracle_contract: Addr,
    pub market_contract: Addr,
    pub base_denom: Vec<u8>,
    pub distribution_threshold: Decimal,
    pub target_deposit_rate: Decimal,
    pub buffer_distribution_rate: Decimal,
}

/// Epoch bookkeeping. `last_executed_height` only ever advances, by exactly
/// the block delta consumed by that epoch's rate computation.
#[derive(Clone, Copy, Debug, PartialEq, Eq, Structural)]
#[verifier::ext_equal]
pub struct EpochState {
    pub deposit_rate: Decimal,
    pub prev_a_token_supply: u128,
    pub prev_exchange_rate: Decimal,
    pub last_executed_height: u64,
}

/// One whitelisted collateral: its custody contract and its loan-to-value
/// ratio.
pub struct WhitelistItem {
    pub custody_contract: Addr,
    pub ltv: Decimal,
}

/// Instantiation parameters of the overseer contract.
pub struct InitMsg {
    pub owner_addr: Addr,
    pub oracle_contract: Addr,
    pub market_contract: Addr,
    pub base_denom: Vec<u8>,
    pub distribution_threshold: Decimal,
    pub target_deposit_rate: Decimal,
    pub buffer_distribution_rate: Decimal,
}

/// Inbound operations of the overseer contract.
pub enum HandleMsg {
    UpdateConfig {
        owner_addr: Option<Addr>,
        distribution_threshold: Option<Decimal>,
        target_deposit_rate: Option<Decimal>,
        buffer_distribution_rate: Option<Decimal>,
    },
    Whitelist { collateral_token: Addr, custody_contract: Addr, ltv: Decimal },
    ExecuteEpochOperations {},
}

/// What the overseer reads from the ledger before deciding an epoch: the
/// market's exchange-rate snapshot, this contract's own base-asset balance,
/// and the ledger's transfer-tax parameters. All are read-only queries; their
/// values are fixed for the whole invocation.
pub struct LedgerView {
    pub market_epoch_state: EpochStateResponse,
    pub interest_buffer: u128,
    pub tax_rate: Decimal,
    pub tax_cap: u128,
}

/// The overseer's persisted state: config and epoch singletons, and the
/// collateral whitelist keyed by collateral-token bytes in ascending order.
pub struct OverseerStorage {
    pub config: Config,
    pub epoch_state: EpochState,
    pub whitelist: Bucket<WhitelistItem>,
}

impl OverseerStorage {
    pub open spec fn wf(&self) -> bool {
        keys_sorted(self.whitelist@)
    }
}

/// Instantiate the overseer: store the config and a fresh epoch state with a
/// zero realized deposit rate, a unit previous exchange rate, no previous
/// receipt-token supply, and the current height as the last executed height.
pub fn init(msg: InitMsg, current_height: u64) -> (s: OverseerStorage)
    ensures
        s.wf(),
        s.config.owner_addr@ == msg.owner_addr@,
        s.config.oracle_contract@ == msg.oracle_contract@,
        s.config.market_contract@ == msg.market_contract@,
        s.config.base_denom@ == msg.base_denom@,
        s.config.distribution_threshold == msg.distribution_threshold,
        s.config.target_deposit_rate == msg.target_deposit_rate,
        s.config.buffer_distribution_rate == msg.buffer_distribution_rate,
        s.epoch_state.deposit_rate.atoms == 0,
        s.epoch_state.prev_a_token_supply == 0,
        s.epoch_state.prev_exchange_rate.atoms == DECIMAL_FRACTIONAL,
        s.epoch_state.last_executed_height == current_height,
        s.whitelist@.len() == 0,
{
    OverseerStorage {
        config: Config {
            owner_addr: msg.owner_addr,
            oracle_contract: msg.oracle_contract,
            market_contract: msg.market_contract,
            base_denom: msg.base_denom,
            distribution_threshold: msg.distribution_threshold,
            target_deposit_rate: msg.target_deposit_rate,
            buffer_distribution_rate: msg.buffer_distribution_rate,
        },
        epoch_state: EpochState {
            deposit_rate: Decimal::zero(),
            prev_a_token_supply: 0,
            prev_exchange_rate: Decimal::one(),
            last_executed_height: current_height,
        },
        whitelist: Bucket::new(),
    }
}

/// The config after a partial update: exactly the supplied fields replaced,
/// every other field kept.
pub open spec fn config_updated(
    old_c: Config,
    new_c: Config,
    owner_addr: Option<Addr>,
    distribution_threshold: Option<Decimal>,
    target_deposit_rate: Option<Decimal>,
    buffer_distribution_rate: Option<Decimal>,
) -> bool {
    &&& new_c.owner_addr@ == (match owner_addr {
        Option::Some(a) => a@,
        Option::None => old_c.owner_addr@,
    })
    &&& new_c.distribution_threshold == (match distribution_threshold {
        Option::Some(v) => v,
        Option::None => old_c.distribution_threshold,
    })
    &&& new_c.target_deposit_rate == (match target_deposit_rate {
        Option::Some(v) => v,
        Option::None => old_c.target_deposit_rate,
    })
    &&& new_c.buffer_distribution_rate == (match buffer_distribution_rate {
        Option::Some(v) => v,
        Option::None => old_c.buffer_distribution_rate,
    })
    &&& new_c.oracle_contract@ == old_c.oracle_contract@
    &&& new_c.market_contract@ == old_c.market_contract@
    &&& new_c.base_denom@ == old_c.base_denom@
}

/// Apply an owner-only partial config update: only the supplied fields
/// change; a caller other than the owner changes nothing.
pub fn update_config(
    storage: &mut OverseerStorage,
    sender: &Addr,
    owner_addr: Option<Addr>,
    distribution_threshold: Option<Decimal>,
    target_deposit_rate: Option<Decimal>,
    buffer_distribution_rate: Option<Decimal>,
) -> (r: Result<(), Error>)
    ensures
        sender@ != old(storage).config.owner_addr@ ==> r == Err::<(), Error>(Error::Unauthorized)
            && *final(storage) == *old(storage),
        sender@ == old(storage).config.owner_addr@ ==> r == Ok::<(), Error>(()) && config_updated(
            old(storage).config,
            final(storage).config,
            owner_addr,
            distribution_threshold,
            target_deposit_rate,
            buffer_distribution_rate,
        ) && final(storage).epoch_state == old(storage).epoch_state && final(storage).whitelist@
            == old(storage).whitelist@,
{
    if !bytes_eq(sender, &storage.config.owner_addr) {
        return Err(Error::Unauthorized);
    }
    match owner_addr {
        Some(a) => {
            storage.config.owner_addr = a;
        },
        None => {},
    }
    match distribution_threshold {
        Some(v) => {
            storage.config.distribution_threshold = v;
        },
        None => {},
    }
    match buffer_distribution_rate {
        Some(v) => {
            storage.config.buffer_distribution_rate = v;
        },
        None => {},
    }
    match target_deposit_rate {
        Some(v) => {
            storage.config.target_deposit_rate = v;
        },
        None => {},
    }
    Ok(())
}

/// Register a collateral asset: owner-only, and only once per asset —
/// registering an already-present asset fails with `DuplicateRegistration`
/// and changes nothing.
pub fn register_whitelist(
    storage: &mut OverseerStorage,
    sender: &Addr,
    collateral_token: Vec<u8>,
    custody_contract: Vec<u8>,
    ltv: Decimal,
) -> (r: Result<(), Error>)
    requires
        old(storage).wf(),
    ensures
        final(storage).wf(),
        sender@ != old(storage).config.owner_addr@ ==> r == Err::<(), Error>(Error::Unauthorized)
            && *final(storage) == *old(storage),
        sender@ == old(storage).config.owner_addr@ && has_key(
            old(storage).whitelist@,
            collateral_token@,
        ) ==> r == Err::<(), Error>(Error::DuplicateRegistration) && *final(storage)
            == *old(storage),
        sender@ == old(storage).config.owner_addr@ && !has_key(
            old(storage).whitelist@,
            collateral_token@,
        ) ==> r == Ok::<(), Error>(()) && final(storage).config == old(storage).config
            && final(storage).epoch_state == old(storage).epoch_state && has_key(
            final(storage).whitelist@,
            collateral_token@,
        ) && final(storage).whitelist@.len() == old(storage).whitelist@.len() + 1 && (exists|
            i: int,
        |
            0 <= i <= old(storage).whitelist@.len() && final(storage).whitelist@
                =~= old(storage).whitelist@.insert(
                i,
                (collateral_token@, WhitelistItem { custody_contract, ltv }),
            )),
{
    if !bytes_eq(sender, &storage.config.owner_addr) {
        return Err(Error::Unauthorized);
    }
    if storage.whitelist.contains(&collateral_token) {
        return Err(Error::DuplicateRegistration);
    }
    storage.whitelist.save(collateral_token, WhitelistItem { custody_contract, ltv });
    Ok(())
}


// ---------------------------------------------------------------------------
// Epoch operations
// ---------------------------------------------------------------------------

/// Atoms of the effective deposit rate over the epoch: the ratio of the
/// market's current exchange rate to the previous one, truncated.
pub open spec fn effective_rate_atoms(cur: Decimal, prev: Decimal) -> int {
    cur.atoms * DECIMAL_FRACTIONAL / (prev.atoms as int)
}

/// Atoms of the realized per-block deposit rate over `blocks` blocks.
pub open spec fn deposit_rate_atoms(cur: Decimal, prev: Decimal, blocks: int) -> int {
    (effective_rate_atoms(cur, prev) - DECIMAL_FRACTIONAL) / blocks
}

/// The period's deposit shortfall in base-asset terms: the previous deposits,
/// scaled by the elapsed blocks, times the missing per-block rate, each
/// product truncated in turn.
pub open spec fn missing_deposits_of(
    prev_supply: int,
    prev_rate: Decimal,
    blocks: int,
    missing_rate_atoms: int,
) -> int {
    (prev_supply * prev_rate.atoms / (DECIMAL_FRACTIONAL as int)) * blocks * missing_rate_atoms
        / (DECIMAL_FRACTIONAL as int)
}

/// The buffer share that may be spent in one epoch.
pub open spec fn distribution_buffer_of(interest_buffer: int, buffer_rate: Decimal) -> int {
    interest_buffer * buffer_rate.atoms / (DECIMAL_FRACTIONAL as int)
}

/// Every intermediate of the below-threshold distribution computation fits
/// u128.
pub open spec fn distribution_fits(
    prev_supply: int,
    prev_rate: Decimal,
    blocks: int,
    missing_rate_atoms: int,
    interest_buffer: int,
    buffer_rate: Decimal,
) -> bool {
    let prev_deposits = prev_supply * prev_rate.atoms / (DECIMAL_FRACTIONAL as int);
    &&& prev_deposits <= u128::MAX
    &&& prev_deposits * blocks <= u128::MAX
    &&& prev_deposits * blocks * missing_rate_atoms / (DECIMAL_FRACTIONAL as int) <= u128::MAX
    &&& interest_buffer * buffer_rate.atoms / (DECIMAL_FRACTIONAL as int) <= u128::MAX
}

/// Compute the epoch's realized per-block deposit rate and — when it falls
/// short of the distribution threshold — the buffered interest to distribute:
/// the smaller of the period's deposit shortfall and the buffer share the
/// config allows to be spent. Answers `None` for the distribution when the
/// realized rate meets the threshold.
pub fn compute_epoch_distribution(
    threshold: Decimal,
    buffer_rate: Decimal,
    prev_supply: u128,
    prev_rate: Decimal,
    cur_rate: Decimal,
    blocks: u64,
    interest_buffer: u128,
) -> (r: Result<(Decimal, Option<u128>), Error>)
    ensures
        prev_rate.atoms == 0 ==> r == Err::<(Decimal, Option<u128>), Error>(Error::DivisionByZero),
        prev_rate.atoms != 0 && effective_rate_atoms(cur_rate, prev_rate) > u128::MAX ==> r == Err::<
            (Decimal, Option<u128>),
            Error,
        >(Error::ArithmeticError),
        prev_rate.atoms != 0 && effective_rate_atoms(cur_rate, prev_rate) <= u128::MAX
            && effective_rate_atoms(cur_rate, prev_rate) < DECIMAL_FRACTIONAL ==> r == Err::<
            (Decimal, Option<u128>),
            Error,
        >(Error::ArithmeticError),
        prev_rate.atoms != 0 && effective_rate_atoms(cur_rate, prev_rate) <= u128::MAX
            && effective_rate_atoms(cur_rate, prev_rate) >= DECIMAL_FRACTIONAL && blocks == 0 ==> r
            == Err::<(Decimal, Option<u128>), Error>(Error::DivisionByZero),
        ({
            let dr = deposit_rate_atoms(cur_rate, prev_rate, blocks as int);
            prev_rate.atoms != 0 && effective_rate_atoms(cur_rate, prev_rate) <= u128::MAX
                && effective_rate_atoms(cur_rate, prev_rate) >= DECIMAL_FRACTIONAL && blocks != 0
                && dr >= threshold.atoms ==> (r matches Ok(p) && p.0.atoms == dr && p.1 is None)
        }),
        ({
            let dr = deposit_rate_atoms(cur_rate, prev_rate, blocks as int);
            prev_rate.atoms != 0 && effective_rate_atoms(cur_rate, prev_rate) <= u128::MAX
                && effective_rate_atoms(cur_rate, prev_rate) >= DECIMAL_FRACTIONAL && blocks != 0
                && dr < threshold.atoms && !distribution_fits(
                prev_supply as int,
                prev_rate,
                blocks as int,
                threshold.atoms - dr,
                interest_buffer as int,
                buffer_rate,
            ) ==> r == Err::<(Decimal, Option<u128>), Error>(Error::ArithmeticError)
        }),
        ({
            let dr = deposit_rate_atoms(cur_rate, prev_rate, blocks as int);
            let missing = missing_deposits_of(
                prev_supply as int,
                prev_rate,
                blocks as int,
                threshold.atoms - dr,
            );
            let cap = distribution_buffer_of(interest_buffer as int, buffer_rate);
            prev_rate.atoms != 0 && effective_rate_atoms(cur_rate, prev_rate) <= u128::MAX
                && effective_rate_atoms(cur_rate, prev_rate) >= DECIMAL_FRACTIONAL && blocks != 0
                && dr < threshold.atoms && distribution_fits(
                prev_supply as int,
                prev_rate,
                blocks as int,
                threshold.atoms - dr,
                interest_buffer as int,
                buffer_rate,
            ) ==> (r matches Ok(p) && p.0.atoms == dr && (p.1 matches Some(d) && d == (if missing
                <= cap {
                missing
            } else {
                cap
            })))
        }),
{
    let effective = match cur_rate.checked_div(prev_rate) {
        Ok(v) => v,
        Err(e) => {
            return Err(e);
        },
    };
    let one = Decimal { atoms: DECIMAL_FRACTIONAL };
    let excess = match effective.checked_sub(one) {
        Ok(v) => v,
        Err(e) => {
            return Err(e);
        },
    };
    let deposit_rate = match excess.checked_div_uint(blocks as u128) {
        Ok(v) => v,
        Err(e) => {
            return Err(e);
        },
    };
    if deposit_rate.atoms >= threshold.atoms {
        return Ok((deposit_rate, None));
    }
    let missing_rate = Decimal { atoms: threshold.atoms - deposit_rate.atoms };
    let prev_deposits = match prev_rate.mul_uint(prev_supply) {
        Ok(v) => v,
        Err(e) => {
            return Err(e);
        },
    };
    let scaled = match prev_deposits.checked_mul(blocks as u128) {
        Some(v) => v,
        None => {
            return Err(Error::ArithmeticError);
        },
    };
    let missing_deposits = match missing_rate.mul_uint(scaled) {
        Ok(v) => v,
        Err(e) => {
            return Err(e);
        },
    };
    let distribution_buffer = match buffer_rate.mul_uint(interest_buffer) {
        Ok(v) => v,
        Err(e) => {
            return Err(e);
        },
    };
    let distributed = if missing_deposits <= distribution_buffer {
        missing_deposits
    } else {
        distribution_buffer
    };
    Ok((deposit_rate, Some(distributed)))
}


/// What one committed epoch does to the persisted state: only the epoch
/// singleton changes, advancing to the market snapshot and the realized rate.
pub open spec fn epoch_committed(
    old_s: OverseerStorage,
    new_s: OverseerStorage,
    h: u64,
    snapshot: EpochStateResponse,
    dr: int,
) -> bool {
    &&& new_s.config == old_s.config
    &&& new_s.whitelist@ == old_s.whitelist@
    &&& new_s.epoch_state.last_executed_height == h
    &&& new_s.epoch_state.prev_exchange_rate == snapshot.exchange_rate
    &&& new_s.epoch_state.prev_a_token_supply == snapshot.aterra_supply
    &&& new_s.epoch_state.deposit_rate.atoms == dr
}

/// The request list one committed epoch emits: the buffered-interest
/// transfer when one is owed, then the keeper premium, then one
/// DistributeRewards per whitelisted collateral's custody contract, in
/// whitelist (ascending key) order.
pub open spec fn epoch_requests(
    reqs: Seq<Request>,
    wl: Seq<(Seq<u8>, WhitelistItem)>,
    market: Seq<u8>,
    transfer: Option<int>,
) -> bool {
    match transfer {
        Option::Some(a) => {
            &&& reqs.len() == 2 + wl.len()
            &&& (reqs[0] matches Request::TransferBaseAsset { to, amount } && to@ == market
                && amount == a)
            &&& (reqs[1] matches Request::SendKeeperPremium { market: m } && m@ == market)
            &&& forall|i: int|
                0 <= i < wl.len() ==> ((#[trigger] reqs[2 + i]) matches Request::DistributeRewards {
                    custody,
                } && custody@ == wl[i].1.custody_contract@)
        },
        Option::None => {
            &&& reqs.len() == 1 + wl.len()
            &&& (reqs[0] matches Request::SendKeeperPremium { market: m } && m@ == market)
            &&& forall|i: int|
                0 <= i < wl.len() ==> ((#[trigger] reqs[1 + i]) matches Request::DistributeRewards {
                    custody,
                } && custody@ == wl[i].1.custody_contract@)
        },
    }
}

/// The whole epoch computation stays within range, the tax deduction on the
/// emitted transfer included.
pub open spec fn epoch_math_ok(cfg: Config, es: EpochState, lv: LedgerView, blocks: int) -> bool {
    let cur = lv.market_epoch_state.exchange_rate;
    let prev = es.prev_exchange_rate;
    let dr = deposit_rate_atoms(cur, prev, blocks);
    let missing = missing_deposits_of(
        es.prev_a_token_supply as int,
        prev,
        blocks,
        cfg.distribution_threshold.atoms - dr,
    );
    let cap = distribution_buffer_of(lv.interest_buffer as int, cfg.buffer_distribution_rate);
    &&& prev.atoms != 0
    &&& effective_rate_atoms(cur, prev) <= u128::MAX
    &&& effective_rate_atoms(cur, prev) >= DECIMAL_FRACTIONAL
    &&& blocks != 0
    &&& (dr < cfg.distribution_threshold.atoms ==> {
        let d = if missing <= cap {
            missing
        } else {
            cap
        };
        &&& distribution_fits(
            es.prev_a_token_supply as int,
            prev,
            blocks,
            cfg.distribution_threshold.atoms - dr,
            lv.interest_buffer as int,
            cfg.buffer_distribution_rate,
        )
        &&& d * lv.tax_rate.atoms / (DECIMAL_FRACTIONAL as int) <= u128::MAX
        &&& tax_of(d, lv.tax_rate, lv.tax_cap as int) <= d
    })
}


/// The tax-adjusted transfer one epoch emits, when one is owed.
pub open spec fn epoch_transfer_amount(cfg: Config, es: EpochState, lv: LedgerView, blocks: int) -> Option<int> {
    let cur = lv.market_epoch_state.exchange_rate;
    let prev = es.prev_exchange_rate;
    let dr = deposit_rate_atoms(cur, prev, blocks);
    if dr >= cfg.distribution_threshold.atoms {
        Option::None
    } else {
        let missing = missing_deposits_of(
            es.prev_a_token_supply as int,
            prev,
            blocks,
            cfg.distribution_threshold.atoms - dr,
        );
        let cap = distribution_buffer_of(lv.interest_buffer as int, cfg.buffer_distribution_rate);
        let d = if missing <= cap {
            missing
        } else {
            cap
        };
        Option::Some(d - tax_of(d, lv.tax_rate, lv.tax_cap as int))
    }
}

/// Run one epoch: gated on `EPOCH_PERIOD` blocks having elapsed, compute the
/// realized per-block deposit rate from the market's snapshot, top the yield
/// up from the interest buffer when it fell short of the distribution
/// threshold, always forward the keeper premium and ask every custody
/// contract to distribute rewards, and commit the new epoch state. On any
/// failure nothing is committed and no request is emitted.
pub fn handle_execute_epoch_operations(
    storage: &mut OverseerStorage,
    env: &Env,
    ledger: &LedgerView,
) -> (r: Result<Vec<Request>, Error>)
    requires
        old(storage).wf(),
    ensures
        final(storage).wf(),
        r is Err ==> *final(storage) == *old(storage),
        env.block_height < old(storage).epoch_state.last_executed_height + EPOCH_PERIOD <==> r
            == Err::<Vec<Request>, Error>(Error::EpochNotElapsed),
        ({
            let es = old(storage).epoch_state;
            let blocks = env.block_height - es.last_executed_height;
            env.block_height >= es.last_executed_height + EPOCH_PERIOD && !epoch_math_ok(
                old(storage).config,
                es,
                *ledger,
                blocks,
            ) ==> r is Err
        }),
        ({
            let es = old(storage).epoch_state;
            let blocks = env.block_height - es.last_executed_height;
            env.block_height >= es.last_executed_height + EPOCH_PERIOD && epoch_math_ok(
                old(storage).config,
                es,
                *ledger,
                blocks,
            ) ==> (r matches Ok(reqs) && epoch_committed(
                *old(storage),
                *final(storage),
                env.block_height,
                ledger.market_epoch_state,
                deposit_rate_atoms(
                    ledger.market_epoch_state.exchange_rate,
                    es.prev_exchange_rate,
                    blocks,
                ),
            ) && epoch_requests(
                reqs@,
                old(storage).whitelist@,
                old(storage).config.market_contract@,
                epoch_transfer_amount(old(storage).config, es, *ledger, blocks),
            ))
        }),
{
    let es = storage.epoch_state;
    let elapsed_enough: bool = match es.last_executed_height.checked_add(EPOCH_PERIOD) {
        Some(gate) => env.block_height >= gate,
        None => false,
    };
    if !elapsed_enough {
        return Err(Error::EpochNotElapsed);
    }
    let blocks = env.block_height - es.last_executed_height;
    let pair = match compute_epoch_distribution(
        storage.config.distribution_threshold,
        storage.config.buffer_distribution_rate,
        es.prev_a_token_supply,
        es.prev_exchange_rate,
        ledger.market_epoch_state.exchange_rate,
        blocks,
        ledger.interest_buffer,
    ) {
        Ok(p) => p,
        Err(e) => {
            return Err(e);
        },
    };
    let deposit_rate = pair.0;
    let ghost gpair = pair;
    let mut requests: Vec<Request> = Vec::new();
    match pair.1 {
        Some(distributed) => {
            let send_amount = match crate::market::deduct_tax(
                distributed,
                ledger.tax_rate,
                ledger.tax_cap,
            ) {
                Ok(v) => v,
                Err(e) => {
                    return Err(e);
                },
            };
            requests.push(
                Request::TransferBaseAsset {
                    to: copy_bytes(&storage.config.market_contract),
                    amount: send_amount,
                },
            );
        },
        None => {},
    }
    requests.push(Request::SendKeeperPremium { market: copy_bytes(&storage.config.market_contract) });
    proof {
        assert(gpair.1 is Some ==> (requests@[0] matches Request::TransferBaseAsset { to, amount }
            && to@ == storage.config.market_contract@));
        assert(gpair.1 is Some ==> (requests@[1] matches Request::SendKeeperPremium { market: m }
            && m@ == storage.config.market_contract@));
        assert(gpair.1 is None ==> (requests@[0] matches Request::SendKeeperPremium { market: m }
            && m@ == storage.config.market_contract@));
    }
    let ghost base = requests@;
    let off = requests.len();
    let n = storage.whitelist.len();
    let mut i: usize = 0;
    while i < n
        invariant
            i <= n,
            n == storage.whitelist@.len(),
            off == base.len(),
            requests@.len() == off + i,
            forall|j: int| 0 <= j < off ==> requests@[j] == base[j],
            forall|j: int|
                0 <= j < i ==> ((#[trigger] requests@[off + j])
                    matches Request::DistributeRewards { custody } && custody@
                    == storage.whitelist@[j].1.custody_contract@),
            *storage == *old(storage),
        decreases n - i,
    {
        let item = storage.whitelist.val_at(i);
        let custody = copy_bytes(&item.custody_contract);
        requests.push(Request::DistributeRewards { custody });
        i = i + 1;
    }
    storage.epoch_state = EpochState {
        deposit_rate,
        prev_a_token_supply: ledger.market_epoch_state.aterra_supply,
        prev_exchange_rate: ledger.market_epoch_state.exchange_rate,
        last_executed_height: env.block_height,
    };
    proof {
        // reaching this point rules out every failing case of the epoch math
        let es0 = old(storage).epoch_state;
        let cfg0 = old(storage).config;
        let blocks_g = env.block_height - es0.last_executed_height;
        let cur = ledger.market_epoch_state.exchange_rate;
        let prev = es0.prev_exchange_rate;
        assert(prev.atoms != 0);
        assert(effective_rate_atoms(cur, prev) <= u128::MAX);
        assert(effective_rate_atoms(cur, prev) >= DECIMAL_FRACTIONAL);
        assert(blocks_g != 0);
        let dr = deposit_rate_atoms(cur, prev, blocks_g);
        if dr < cfg0.distribution_threshold.atoms {
            assert(distribution_fits(
                es0.prev_a_token_supply as int,
                prev,
                blocks_g,
                cfg0.distribution_threshold.atoms - dr,
                ledger.interest_buffer as int,
                cfg0.buffer_distribution_rate,
            ));
            let missing = missing_deposits_of(
                es0.prev_a_token_supply as int,
                prev,
                blocks_g,
                cfg0.distribution_threshold.atoms - dr,
            );
            let cap = distribution_buffer_of(
                ledger.interest_buffer as int,
                cfg0.buffer_distribution_rate,
            );
            let dd = if missing <= cap {
                missing
            } else {
                cap
            };
            assert(dd * ledger.tax_rate.atoms / (DECIMAL_FRACTIONAL as int) <= u128::MAX);
            assert(tax_of(dd, ledger.tax_rate, ledger.tax_cap as int) <= dd);
        }
        assert(epoch_math_ok(cfg0, es0, *ledger, blocks_g));
    }
    Ok(requests)
}


/// Route one inbound operation: apply the owner checks and the operation's
/// own validation, run it, and answer its outbound requests. Config and
/// whitelist updates emit no requests. The collateral lock/unlock, borrow and
/// liquidation operations are routed by a fuller overseer than this core
/// carries; their shared validation — the oracle staleness check and the
/// loan-to-value borrow limit — stands below as `read_price_fresh` (oracle),
/// `compute_borrow_limit` and `assert_borrow_limit`.
pub fn handle(
    storage: &mut OverseerStorage,
    env: &Env,
    ledger: &LedgerView,
    msg: HandleMsg,
) -> (r: Result<Vec<Request>, Error>)
    requires
        old(storage).wf(),
    ensures
        final(storage).wf(),
        r is Err ==> *final(storage) == *old(storage),
        (msg matches HandleMsg::UpdateConfig { .. } || msg matches HandleMsg::Whitelist { .. })
            && env.sender@ != old(storage).config.owner_addr@ ==> r == Err::<Vec<Request>, Error>(
            Error::Unauthorized,
        ),
        ({
            msg matches HandleMsg::UpdateConfig {
                owner_addr,
                distribution_threshold,
                target_deposit_rate,
                buffer_distribution_rate,
            } ==> (env.sender@ == old(storage).config.owner_addr@ ==> (r matches Ok(reqs)
                && reqs@.len() == 0 && config_updated(
                old(storage).config,
                final(storage).config,
                owner_addr,
                distribution_threshold,
                target_deposit_rate,
                buffer_distribution_rate,
            ) && final(storage).epoch_state == old(storage).epoch_state
                && final(storage).whitelist@ == old(storage).whitelist@))
        }),
        ({
            msg matches HandleMsg::Whitelist { collateral_token, .. } ==> (env.sender@ == old(
                storage,
            ).config.owner_addr@ && has_key(old(storage).whitelist@, collateral_token@) ==> r
                == Err::<Vec<Request>, Error>(Error::DuplicateRegistration))
        }),
        ({
            msg matches HandleMsg::Whitelist { collateral_token, custody_contract, ltv } ==> (
            env.sender@ == old(storage).config.owner_addr@ && !has_key(
                old(storage).whitelist@,
                collateral_token@,
            ) ==> (r matches Ok(reqs) && reqs@.len() == 0 && has_key(
                final(storage).whitelist@,
                collateral_token@,
            ) && final(storage).whitelist@.len() == old(storage).whitelist@.len() + 1
                && final(storage).config == old(storage).config
                && final(storage).epoch_state == old(storage).epoch_state && (exists|i: int|
                0 <= i <= old(storage).whitelist@.len() && final(storage).whitelist@
                    =~= old(storage).whitelist@.insert(
                    i,
                    (collateral_token@, WhitelistItem { custody_contract, ltv }),
                ))))
        }),
        msg matches HandleMsg::ExecuteEpochOperations {  } && env.block_height < old(storage).epoch_state.last_executed_height + EPOCH_PERIOD ==> r == Err::<Vec<Request>, Error>(
            Error::EpochNotElapsed,
        ),
        ({
            let es = old(storage).epoch_state;
            let blocks = env.block_height - es.last_executed_height;
            msg matches HandleMsg::ExecuteEpochOperations {  } && env.block_height
                >= es.last_executed_height + EPOCH_PERIOD && !epoch_math_ok(
                old(storage).config,
                es,
                *ledger,
                blocks,
            ) ==> r is Err
        }),
        ({
            let es = old(storage).epoch_state;
            let blocks = env.block_height - es.last_executed_height;
            msg matches HandleMsg::ExecuteEpochOperations {  } && env.block_height
                >= es.last_executed_height + EPOCH_PERIOD && epoch_math_ok(
                old(storage).config,
                es,
                *ledger,
                blocks,
            ) ==> (r matches Ok(reqs) && epoch_committed(
                *old(storage),
                *final(storage),
                env.block_height,
                ledger.market_epoch_state,
                deposit_rate_atoms(
                    ledger.market_epoch_state.exchange_rate,
                    es.prev_exchange_rate,
                    blocks,
                ),
            ) && epoch_requests(
                reqs@,
                old(storage).whitelist@,
                old(storage).config.market_contract@,
                epoch_transfer_amount(old(storage).config, es, *ledger, blocks),
            ))
        }),
{
    match msg {
        HandleMsg::UpdateConfig {
            owner_addr,
            distribution_threshold,
            target_deposit_rate,
            buffer_distribution_rate,
        } => {
            match update_config(
                storage,
                &env.sender,
                owner_addr,
                distribution_threshold,
                target_deposit_rate,
                buffer_distribution_rate,
            ) {
                Ok(()) => Ok(Vec::new()),
                Err(e) => Err(e),
            }
        },
        HandleMsg::Whitelist { collateral_token, custody_contract, ltv } => {
            match register_whitelist(storage, &env.sender, collateral_token, custody_contract, ltv) {
                Ok(()) => Ok(Vec::new()),
                Err(e) => Err(e),
            }
        },
        HandleMsg::ExecuteEpochOperations {  } => {
            handle_execute_epoch_operations(storage, env, ledger)
        },
    }
}

// ---------------------------------------------------------------------------
// Collateral borrow limit
// ---------------------------------------------------------------------------

/// The borrow-limit contribution of one collateral position: its oracle
/// value, then the loan-to-value share of that value, each truncated.
pub open spec fn collateral_credit(amount: int, price: Decimal, ltv: Decimal) -> int {
    (amount * price.atoms / (DECIMAL_FRACTIONAL as int)) * ltv.atoms / (DECIMAL_FRACTIONAL as int)
}

/// The borrow limit over the first `n` collateral positions.
pub open spec fn borrow_limit_sum(s: Seq<(u128, Decimal, Decimal)>, n: int) -> int
    decreases n,
{
    if n <= 0 {
        0
    } else {
        borrow_limit_sum(s, n - 1) + collateral_credit(s[n - 1].0 as int, s[n - 1].1, s[n - 1].2)
    }
}

/// Every intermediate of the borrow-limit sum over the first `n` positions
/// fits u128.
pub open spec fn borrow_limit_fits(s: Seq<(u128, Decimal, Decimal)>, n: int) -> bool
    decreases n,
{
    if n <= 0 {
        true
    } else {
        &&& borrow_limit_fits(s, n - 1)
        &&& s[n - 1].0 * s[n - 1].1.atoms / (DECIMAL_FRACTIONAL as int) <= u128::MAX
        &&& (s[n - 1].0 * s[n - 1].1.atoms / (DECIMAL_FRACTIONAL as int)) * s[n - 1].2.atoms
            / (DECIMAL_FRACTIONAL as int) <= u128::MAX
        &&& borrow_limit_sum(s, n) <= u128::MAX
    }
}

proof fn lemma_borrow_limit_fits_mono(s: Seq<(u128, Decimal, Decimal)>, m: int, n: int)
    requires
        0 <= m <= n,
        !borrow_limit_fits(s, m),
    ensures
        !borrow_limit_fits(s, n),
    decreases n,
{
    if n > m {
        lemma_borrow_limit_fits_mono(s, m, n - 1);
    }
}

/// The borrower's limit: the sum over every position of the loan-to-value
/// share of the position's oracle value. Fails with `ArithmeticError` when
/// any intermediate does not fit.
pub fn compute_borrow_limit(collaterals: &Vec<(u128, Decimal, Decimal)>) -> (r: Result<u128, Error>)
    ensures
        borrow_limit_fits(collaterals@, collaterals@.len() as int) ==> (r matches Ok(v) && v
            == borrow_limit_sum(collaterals@, collaterals@.len() as int)),
        !borrow_limit_fits(collaterals@, collaterals@.len() as int) ==> r == Err::<u128, Error>(
            Error::ArithmeticError,
        ),
{
    let n = collaterals.len();
    let mut total: u128 = 0;
    let mut i: usize = 0;
    while i < n
        invariant
            i <= n,
            n == collaterals@.len(),
            borrow_limit_fits(collaterals@, i as int),
            total == borrow_limit_sum(collaterals@, i as int),
        decreases n - i,
    {
        let e = collaterals[i];
        let value = match e.1.mul_uint(e.0) {
            Ok(v) => v,
            Err(_) => {
                proof {
                    lemma_borrow_limit_fits_mono(collaterals@, i + 1, n as int);
                }
                return Err(Error::ArithmeticError);
            },
        };
        let credit = match e.2.mul_uint(value) {
            Ok(v) => v,
            Err(_) => {
                proof {
                    lemma_borrow_limit_fits_mono(collaterals@, i + 1, n as int);
                }
                return Err(Error::ArithmeticError);
            },
        };
        let new_total = match total.checked_add(credit) {
            Some(v) => v,
            None => {
                proof {
                    lemma_borrow_limit_fits_mono(collaterals@, i + 1, n as int);
                }
                return Err(Error::ArithmeticError);
            },
        };
        total = new_total;
        i = i + 1;
    }
    Ok(total)
}

/// Enforce the collateral inequality of every borrow-side operation: the
/// post-operation borrowed value may not exceed the borrow limit.
pub fn assert_borrow_limit(borrowed: u128, limit: u128) -> (r: Result<(), Error>)
    ensures
        borrowed <= limit <==> r == Ok::<(), Error>(()),
        borrowed > limit <==> r == Err::<(), Error>(Error::ExceedsBorrowLimit),
{
    if borrowed > limit {
        Err(Error::ExceedsBorrowLimit)
    } else {
        Ok(())
    }
}

} // verus!
