use vstd::prelude::*;

use crate::dec::Decimal;
use crate::store::{Bucket, keys_sorted, lex_lt, has_key, page_start_ok, copy_bytes};
use crate::{Addr, Error};
use vstd::string::StringSliceAdditionalSpecFns;

verus! {

/// Oracle contract configuration.
#[derive(Debug)]
pub struct Config {
    pub owner: Addr,
    pub base_asset: String,
}

/// One asset's price record. A record is never implicitly fresh: reads that
/// drive risk decisions go through `read_price_fresh`, which checks the
/// record's age against the caller's staleness window.
#[derive(Clone, Copy, Debug, PartialEq, Eq, Structural)]
pub struct PriceInfo {
    pub price: Decimal,
    pub last_updated_time: u64,
}

/// One entry of a paged price query.
pub struct PricesResponseElem {
    pub asset: Vec<u8>,
    pub price: Decimal,
    pub last_updated_time: u64,
}

/// The oracle's persisted state: the config singleton and the per-asset price
/// bucket, keyed by the asset identifier's bytes in ascending order.
pub struct OracleStorage {
    pub config: Option<Config>,
    pub prices: Bucket<PriceInfo>,
}

impl OracleStorage {
    pub open spec fn wf(&self) -> bool {
        keys_sorted(self.prices@)
    }

    pub fn new() -> (s: OracleStorage)
        ensures
            s.wf(),
            s.config is None,
            s.prices@.len() == 0,
    {
        OracleStorage { config: None, prices: Bucket::new() }
    }
}

/// The byte key under which an asset's price record is stored.
pub open spec fn asset_key(asset: &str) -> Seq<u8> {
    asset.spec_bytes()
}

/// Persist the config singleton, overwriting any previous value.
pub fn store_config(storage: &mut OracleStorage, config: Config)
    ensures
        final(storage).config matches Some(c) && c == config,
        final(storage).prices@ == old(storage).prices@,
{
    storage.config = Some(config);
}

/// Read the config singleton; `NotFound` when the instance was never
/// initialized.
pub fn read_config(storage: &OracleStorage) -> (r: Result<&Config, Error>)
    ensures
        storage.config matches Some(c) ==> (r matches Ok(rc) && *rc == c),
        storage.config is None ==> r == Err::<&Config, Error>(Error::NotFound),
{
    match &storage.config {
        Some(c) => Ok(c),
        None => Err(Error::NotFound),
    }
}

/// Persist `price` under `asset`, inserting or overwriting, keeping the
/// bucket's ascending key order.
pub fn store_price(storage: &mut OracleStorage, asset: &str, price: &PriceInfo)
    requires
        old(storage).wf(),
    ensures
        final(storage).wf(),
        final(storage).config == old(storage).config,
        has_key(final(storage).prices@, asset_key(asset)),
        has_key(old(storage).prices@, asset_key(asset)) ==> exists|i: int|
            0 <= i < old(storage).prices@.len() && (#[trigger] old(storage).prices@[i]).0
                == asset_key(asset) && final(storage).prices@ =~= old(storage).prices@.update(
                i,
                (asset_key(asset), *price),
            ),
        !has_key(old(storage).prices@, asset_key(asset)) ==> exists|i: int|
            0 <= i <= old(storage).prices@.len() && (forall|j: int|
                0 <= j < i ==> lex_lt(#[trigger] old(storage).prices@[j].0, asset_key(asset)))
                && (forall|j: int|
                i <= j < old(storage).prices@.len() ==> lex_lt(
                    asset_key(asset),
                    #[trigger] old(storage).prices@[j].0,
                )) && final(storage).prices@ =~= old(storage).prices@.insert(
                i,
                (asset_key(asset), *price),
            ),
{
    let key = vstd::slice::slice_to_vec(asset.as_bytes());
    storage.prices.save(key, *price);
}

/// Read the stored price record of `asset`; `NotFound` when no price was
/// ever stored for it.
pub fn read_price(storage: &OracleStorage, asset: &str) -> (r: Result<PriceInfo, Error>)
    ensures
        !has_key(storage.prices@, asset_key(asset)) ==> r == Err::<PriceInfo, Error>(
            Error::NotFound,
        ),
        has_key(storage.prices@, asset_key(asset)) ==> (r matches Ok(p) && exists|i: int|
            0 <= i < storage.prices@.len() && (#[trigger] storage.prices@[i]).0 == asset_key(asset)
                && storage.prices@[i].1 == p),
{
    let key = vstd::slice::slice_to_vec(asset.as_bytes());
    match storage.prices.get(&key) {
        Some(p) => Ok(*p),
        None => Err(Error::NotFound),
    }
}

/// Read the price record of `asset` and validate its age: a record whose
/// `last_updated_time` lies more than `max_age` behind `current_time` is
/// answered as `StalePrice`, never as a price.
pub fn read_price_fresh(storage: &OracleStorage, asset: &str, current_time: u64, max_age: u64) -> (r:
    Result<PriceInfo, Error>)
    ensures
        !has_key(storage.prices@, asset_key(asset)) ==> r == Err::<PriceInfo, Error>(
            Error::NotFound,
        ),
        has_key(storage.prices@, asset_key(asset)) ==> exists|i: int|
            0 <= i < storage.prices@.len() && (#[trigger] storage.prices@[i]).0 == asset_key(asset)
                && (if storage.prices@[i].1.last_updated_time + max_age < current_time {
                r == Err::<PriceInfo, Error>(Error::StalePrice)
            } else {
                r == Ok::<PriceInfo, Error>(storage.prices@[i].1)
            }),
{
    let key = vstd::slice::slice_to_vec(asset.as_bytes());
    match storage.prices.get(&key) {
        Some(p) => {
            let info = *p;
            if max_age <= u64::MAX - info.last_updated_time && info.last_updated_time + max_age
                < current_time {
                Err(Error::StalePrice)
            } else {
                Ok(info)
            }
        },
        None => Err(Error::NotFound),
    }
}

/// The byte view of an optional asset-name start key.
pub open spec fn opt_string_key(start: Option<String>) -> Option<Seq<u8>> {
    match start {
        Option::Some(s) => Option::Some(vstd::utf8::encode_utf8(s@)),
        Option::None => Option::None,
    }
}

/// Query stored price records in ascending asset-key order, starting strictly
/// after `start_after` when given, answering at most `limit` (default 10,
/// capped at 30) records.
pub fn read_prices(storage: &OracleStorage, start_after: Option<String>, limit: Option<u32>) -> (r:
    Vec<PricesResponseElem>)
    requires
        storage.wf(),
    ensures
        exists|lo: int|
            #[trigger] page_start_ok(storage.prices@, opt_string_key(start_after), lo) && r@.len()
                == crate::store::page_len(limit, storage.prices@.len() - lo) && (forall|k: int|
                0 <= k < r@.len() ==> {
                    &&& (#[trigger] r@[k]).asset@ == storage.prices@[lo + k].0
                    &&& r@[k].price == storage.prices@[lo + k].1.price
                    &&& r@[k].last_updated_time == storage.prices@[lo + k].1.last_updated_time
                }),
{
    let lo: usize = match &start_after {
        Some(s) => {
            let key = vstd::slice::slice_to_vec(s.as_str().as_bytes());
            storage.prices.first_index_after(&key)
        },
        None => 0,
    };
    let lim_u32: u32 = match limit {
        Some(l) => if l <= 30 {
            l
        } else {
            30
        },
        None => 10,
    };
    let lim = lim_u32 as usize;
    let n = storage.prices.len();
    let remaining = n - lo;
    let count = if lim <= remaining {
        lim
    } else {
        remaining
    };
    let mut out: Vec<PricesResponseElem> = Vec::new();
    let mut k: usize = 0;
    while k < count
        invariant
            k <= count,
            n == storage.prices@.len(),
            lo + count <= n,
            out@.len() == k,
            forall|p: int|
                0 <= p < k ==> {
                    &&& (#[trigger] out@[p]).asset@ == storage.prices@[lo + p].0
                    &&& out@[p].price == storage.prices@[lo + p].1.price
                    &&& out@[p].last_updated_time == storage.prices@[lo + p].1.last_updated_time
                },
        decreases count - k,
    {
        let key = copy_bytes(storage.prices.key_at(lo + k));
        let v = *storage.prices.val_at(lo + k);
        out.push(
            PricesResponseElem {
                asset: key,
                price: v.price,
                last_updated_time: v.last_updated_time,
            },
        );
        k = k + 1;
    }
    proof {
        assert(page_start_ok(storage.prices@, opt_string_key(start_after), lo as int));
    }
    out
}

/// The first storable key strictly above every stored key that starts with
/// `start_after`'s bytes without extending them: the given key's bytes with a
/// single 1-byte appended.
pub fn calc_range_start(start_after: Option<String>) -> (r: Option<Vec<u8>>)
    ensures
        start_after matches Some(s) ==> (r matches Some(v) && v@ == vstd::utf8::encode_utf8(
            s@,
        ).push(1u8)),
        start_after is None ==> r is None,
{
    match start_after {
        Some(s) => {
            let mut v = vstd::slice::slice_to_vec(s.as_str().as_bytes());
            v.push(1u8);
            Some(v)
        },
        None => None,
    }
}

} // verus!
