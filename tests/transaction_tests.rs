use tri_arb::quantize::Grid;
use tri_arb::transaction::{ArbitrageTransaction, MarketBbo, ReadyError, Side, DEFAULT_FEE_RATE};

fn tick(id: &str, ask: u64, bid: u64, ask_qty: u64, bid_qty: u64) -> MarketBbo {
    MarketBbo {
        instrument_id: id.to_string(),
        ask_price: ask,
        ask_qty,
        bid_price: bid,
        bid_qty,
        min_price: 0,
        max_price: u64::MAX,
        min_qty: 0,
        max_qty: u64::MAX,
        step_size: Grid::Unset,
        tick_size: Grid::Unset,
        marketdata_timestamp_ms: 1_000,
        received_timestamp_ms: 1_005,
    }
}

fn leg(source: &str, target: &str, side: Side, id: &str) -> ArbitrageTransaction {
    ArbitrageTransaction::new(
        source.to_string(),
        target.to_string(),
        side,
        id.to_string(),
        format!("{}{}", source, target),
    )
}

#[test]
fn new_leg_is_fresh() {
    let l = leg("BTC", "USDT", Side::Sell, "BINANCE_BTC_USDT");
    assert_eq!(l.get_name(), "BTC-(SELL)->USDT");
    assert_eq!(l.get_source(), "BTC");
    assert_eq!(l.get_instrument(), "BINANCE_BTC_USDT");
    assert_eq!(l.get_exchange_code(), "BTCUSDT");
    assert_eq!(l.fee_rate, DEFAULT_FEE_RATE);
    assert_eq!(DEFAULT_FEE_RATE, 100_000);
    assert!(!l.ready);
    assert_eq!(l.is_valid(), Err(ReadyError::InvalidAsk));
}

#[test]
fn update_marks_ready() {
    let mut l = leg("BTC", "USDT", Side::Sell, "BINANCE_BTC_USDT");
    l.update(&tick("BINANCE_BTC_USDT", 5, 4, 3, 2));
    assert!(l.ready);
    assert_eq!((l.ask_price, l.bid_price, l.ask_qty, l.bid_qty), (5, 4, 3, 2));
    assert_eq!(l.tick_timestamp_ms, 1_000);
    assert_eq!(l.is_valid(), Ok(true));
}

#[test]
fn readiness_errors() {
    let mut l = leg("BTC", "USDT", Side::Sell, "BINANCE_BTC_USDT");
    l.update(&tick("BINANCE_BTC_USDT", 0, 4, 3, 2));
    assert_eq!(l.is_valid(), Err(ReadyError::InvalidAsk));
    l.update(&tick("BINANCE_BTC_USDT", 5, 0, 3, 2));
    assert_eq!(l.is_valid(), Err(ReadyError::InvalidBid));
    l.update(&tick("BINANCE_BTC_USDT", 5, 4, 0, 2));
    assert_eq!(l.is_valid(), Err(ReadyError::InvalidAskQty));
    l.update(&tick("BINANCE_BTC_USDT", 5, 4, 3, 0));
    assert_eq!(l.is_valid(), Err(ReadyError::InvalidBidQty));
}

#[test]
fn sell_leg_with_default_fee() {
    // 1 BTC sold at 10000 USDT, fee 0.001 of the proceeds
    let mut l = leg("BTC", "USDT", Side::Sell, "BINANCE_BTC_USDT");
    l.update(&tick("BINANCE_BTC_USDT", 1_000_100_000_000, 1_000_000_000_000, 1, 7));
    let r = l.execute(100_000_000).unwrap();
    assert_eq!(r.get_qty_in(), 100_000_000);
    assert_eq!(r.get_qty_to_execute(), 100_000_000);
    assert_eq!(r.get_price(), 1_000_000_000_000);
    assert_eq!(r.fee, 1_000_000_000);
    assert_eq!(r.get_qty_out(), 999_000_000_000);
    assert_eq!(r.get_market_qty(), 7);
    assert_eq!(r.get_operation(), Side::Sell);
    assert_eq!(r.get_instrument_symbol(), "BTC_USDT");
    assert_eq!(r.get_source(), "BTC");
    assert_eq!(r.get_target(), "USDT");
    assert_eq!(r.get_exchange_code(), "BTCUSDT");
    assert_eq!(r.get_tick_timestamp(), 1_000);
}

#[test]
fn buy_leg_with_default_fee() {
    // 10000 USDT buys 50 ETH at 200, fee 0.001 of the ETH
    let mut l = leg("USDT", "ETH", Side::Buy, "BINANCE_ETH_USDT");
    l.update(&tick("BINANCE_ETH_USDT", 20_000_000_000, 19_900_000_000, 9, 1));
    let r = l.execute(1_000_000_000_000).unwrap();
    assert_eq!(r.get_price(), 20_000_000_000);
    assert_eq!(r.get_qty_to_execute(), 5_000_000_000);
    assert_eq!(r.fee, 5_000_000);
    assert_eq!(r.get_qty_out(), 4_995_000_000);
    assert_eq!(r.get_market_qty(), 9);
    assert_eq!(r.get_operation(), Side::Buy);
}

#[test]
fn grids_apply_to_price_and_quantity() {
    let mut l = leg("USDT", "ETH", Side::Buy, "BINANCE_ETH_USDT");
    let mut t = tick("BINANCE_ETH_USDT", 20_012_345_678, 1, 1, 1);
    t.tick_size = Grid::Digits(2);
    t.step_size = Grid::Digits(3);
    l.update(&t);
    l.set_fee_rate(0);
    // price 200.12345678 -> 200.12; 1000 / 200.12 = 4.99700179... -> 4.997
    let r = l.execute(100_000_000_000).unwrap();
    assert_eq!(r.get_price(), 20_012_000_000);
    assert_eq!(r.get_qty_to_execute(), 499_700_000);
    assert_eq!(r.get_qty_out(), 499_700_000);
}

#[test]
fn fee_free_conservation() {
    let mut sell = leg("BTC", "USDT", Side::Sell, "BINANCE_BTC_USDT");
    sell.update(&tick("BINANCE_BTC_USDT", 3, 1_234_500_000_000, 1, 1));
    sell.set_fee_rate(0);
    let r = sell.execute(250_000_000).unwrap();
    assert_eq!(r.get_qty_out(), 3_086_250_000_000);

    let mut buy = leg("USDT", "ETH", Side::Buy, "BINANCE_ETH_USDT");
    buy.update(&tick("BINANCE_ETH_USDT", 30_000_000_000, 1, 1, 1));
    buy.set_fee_rate(0);
    let q: u64 = 100_000_000_000;
    let r = buy.execute(q).unwrap();
    let spent = r.get_qty_out() as u128 * r.get_price() as u128;
    assert!(spent <= q as u128 * 100_000_000);
    assert!(q as u128 * 100_000_000 < spent + r.get_price() as u128);
}

#[test]
fn unrepresentable_results_are_none() {
    let mut l = leg("USDT", "ETH", Side::Buy, "BINANCE_ETH_USDT");
    let mut t = tick("BINANCE_ETH_USDT", 5, 1, 1, 1);
    t.tick_size = Grid::Digits(2);
    l.update(&t);
    // the ask rounds down to zero
    assert!(l.execute(100).is_none());
    l.set_fee_rate(200_000_000);
    l.tick_size = Grid::Unset;
    // a fee above the amount
    assert!(l.execute(100).is_none());
}

#[test]
fn evaluation_is_deterministic_but_for_uuid() {
    let mut l = leg("BTC", "USDT", Side::Sell, "BINANCE_BTC_USDT");
    l.update(&tick("BINANCE_BTC_USDT", 2, 1_000_000_000_000, 1, 1));
    let a = l.execute(12_345_678).unwrap();
    let b = l.execute(12_345_678).unwrap();
    assert_eq!(a.get_qty_out(), b.get_qty_out());
    assert_eq!(a.get_qty_to_execute(), b.get_qty_to_execute());
    assert_eq!(a.get_price(), b.get_price());
    assert_eq!(a.fee, b.fee);
    assert_ne!(a.get_uuid(), b.get_uuid());
    assert_eq!((a.get_uuid() >> 76) & 0xf, 4);
    assert_eq!((a.get_uuid() >> 62) & 0x3, 2);
}

#[test]
fn valid_ordering_checks_depth_and_bounds() {
    let mut l = leg("BTC", "USDT", Side::Sell, "BINANCE_BTC_USDT");
    let mut t = tick("BINANCE_BTC_USDT", 2, 100_000_000, 1, 50);
    t.min_qty = 10;
    t.max_qty = 40;
    l.update(&t);
    assert!(l.execute(30).unwrap().is_valid_ordering());
    assert!(!l.execute(5).unwrap().is_valid_ordering());
    assert!(!l.execute(45).unwrap().is_valid_ordering());
    t.max_qty = 100;
    l.update(&t);
    assert!(!l.execute(60).unwrap().is_valid_ordering());
}

#[test]
fn instrument_symbol_keeps_other_ids() {
    let mut l = leg("BTC", "USDT", Side::Sell, "KRAKEN_BTC_USDT");
    l.update(&tick("KRAKEN_BTC_USDT", 2, 100_000_000, 1, 1));
    assert_eq!(l.execute(1).unwrap().get_instrument_symbol(), "KRAKEN_BTC_USDT");
}
