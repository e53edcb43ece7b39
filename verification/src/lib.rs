use vstd::prelude::*;

pub mod dec;
pub mod market;
pub mod oracle;
pub mod overseer;
pub mod store;

verus! {

/// An account or contract address, carried as an opaque byte identifier. The
/// host ledger's address codec is outside this core; the core only stores,
/// compares and keys by these bytes.
pub type Addr = Vec<u8>;

/// A quantity of one native ledger denomination.
#[derive(Debug)]
pub struct Coin {
    pub denom: Vec<u8>,
    pub amount: u128,
}

/// What an inbound invocation sees of its surroundings: the current block
/// height, the calling address, and the native funds sent along.
pub struct Env {
    pub block_height: u64,
    pub sender: Addr,
    pub sent_funds: Vec<Coin>,
}

/// An outbound cross-contract request. Requests are queued by the host for
/// execution after the current invocation commits; none is executed — and no
/// result of one is observed — inside the invocation that emits it.
#[derive(Debug)]
pub enum Request {
    /// Mint receipt tokens to a depositor.
    Mint { recipient: Addr, amount: u128 },
    /// Burn receipt tokens surrendered by a redeemer.
    Burn { amount: u128 },
    /// Transfer base asset; `amount` is already tax-adjusted.
    TransferBaseAsset { to: Addr, amount: u128 },
    /// Ask the market contract to settle and forward the keeper premium.
    SendKeeperPremium { market: Addr },
    /// Ask one custody contract to distribute its collateral rewards.
    DistributeRewards { custody: Addr },
}

/// Error taxonomy of the money-market core. Every failing operation aborts the
/// whole invocation: no function commits a partial state change together with
/// one of these.
#[derive(Clone, Copy, Debug, PartialEq, Eq, Structural)]
pub enum Error {
    /// The caller fails an ownership or role check.
    Unauthorized,
    /// A zero or missing amount, or an otherwise malformed input.
    InvalidInput,
    /// Re-registering an already-whitelisted collateral asset.
    DuplicateRegistration,
    /// A missing price, config or liability record.
    NotFound,
    /// An oracle price record older than the allowed staleness window.
    StalePrice,
    /// Overflow or underflow in fixed-point arithmetic.
    ArithmeticError,
    /// A fixed-point division with a zero denominator.
    DivisionByZero,
    /// A borrow that would leave the borrower over the collateral borrow limit.
    ExceedsBorrowLimit,
    /// Epoch operations triggered before the epoch period has elapsed.
    EpochNotElapsed,
    /// A redemption larger than the pool balance can cover.
    InsufficientLiquidity,
}

} // verus!
