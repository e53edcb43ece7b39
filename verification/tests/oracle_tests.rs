use moneymarket::dec::{Decimal, DECIMAL_FRACTIONAL};
use moneymarket::oracle::{
    calc_range_start, read_config, read_price, read_price_fresh, read_prices, store_config,
    store_price, Config, OracleStorage, PriceInfo,
};
use moneymarket::Error;

fn dec(whole: u128) -> Decimal {
    Decimal { atoms: whole * DECIMAL_FRACTIONAL }
}

fn price(whole: u128, at: u64) -> PriceInfo {
    PriceInfo { price: dec(whole), last_updated_time: at }
}

#[test]
fn config_roundtrip() {
    let mut s = OracleStorage::new();
    assert_eq!(read_config(&s).unwrap_err(), Error::NotFound);
    store_config(&mut s, Config { owner: b"owner".to_vec(), base_asset: "uusd".to_string() });
    let c = read_config(&s).unwrap();
    assert_eq!(c.owner, b"owner".to_vec());
    assert_eq!(c.base_asset, "uusd".to_string());
}

#[test]
fn price_roundtrip_and_overwrite() {
    let mut s = OracleStorage::new();
    assert_eq!(read_price(&s, "btc").unwrap_err(), Error::NotFound);
    store_price(&mut s, "btc", &price(7, 10));
    assert_eq!(read_price(&s, "btc").unwrap(), price(7, 10));
    store_price(&mut s, "btc", &price(9, 20));
    assert_eq!(read_price(&s, "btc").unwrap(), price(9, 20));
    assert_eq!(s.prices.len(), 1);
}

#[test]
fn stale_price_is_refused() {
    let mut s = OracleStorage::new();
    store_price(&mut s, "btc", &price(7, 100));
    // Window of 50 at time 150: exactly at the edge, still fresh.
    assert_eq!(read_price_fresh(&s, "btc", 150, 50).unwrap(), price(7, 100));
    // One block later the record is stale.
    assert_eq!(read_price_fresh(&s, "btc", 151, 50), Err(Error::StalePrice));
    assert_eq!(read_price_fresh(&s, "eth", 151, 50), Err(Error::NotFound));
}

#[test]
fn prices_are_paged_in_ascending_asset_order() {
    let mut s = OracleStorage::new();
    store_price(&mut s, "eth", &price(2, 1));
    store_price(&mut s, "ada", &price(1, 1));
    store_price(&mut s, "btc", &price(3, 1));
    let all = read_prices(&s, None, Some(30));
    assert_eq!(all.len(), 3);
    assert_eq!(all[0].asset, b"ada".to_vec());
    assert_eq!(all[1].asset, b"btc".to_vec());
    assert_eq!(all[2].asset, b"eth".to_vec());
    // Strictly after "btc": only "eth" remains.
    let tail = read_prices(&s, Some("btc".to_string()), Some(30));
    assert_eq!(tail.len(), 1);
    assert_eq!(tail[0].asset, b"eth".to_vec());
    assert_eq!(tail[0].price, dec(2));
    // Limit cuts the page.
    let first = read_prices(&s, None, Some(1));
    assert_eq!(first.len(), 1);
    assert_eq!(first[0].asset, b"ada".to_vec());
}

#[test]
fn calc_range_start_appends_one_byte() {
    assert_eq!(calc_range_start(Some("abc".to_string())), Some(b"abc\x01".to_vec()));
    assert_eq!(calc_range_start(None), None);
}
