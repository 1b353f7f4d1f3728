use tri_arb::arbitrage::Arbitrage;
use tri_arb::executor::{ArbitrageExecutor, ArbitrageWorker};
use tri_arb::ordering::{order_requests, sleep_between_transactions, DEFAULT_SLEEP_MICROS};
use tri_arb::quantize::Grid;
use tri_arb::topology::build_topology;
use tri_arb::transaction::{MarketBbo, Side, TransactionPlan};

const DEEP: u64 = 1_000_000_000_000_000;

fn tick(id: &str, ask: u64, bid: u64, ask_qty: u64, bid_qty: u64, ts: i64) -> MarketBbo {
    MarketBbo {
        instrument_id: id.to_string(),
        ask_price: ask,
        ask_qty,
        bid_price: bid,
        bid_qty,
        min_price: 0,
        max_price: u64::MAX,
        min_qty: 0,
        max_qty: u64::MAX,
        step_size: Grid::Unset,
        tick_size: Grid::Unset,
        marketdata_timestamp_ms: ts,
        received_timestamp_ms: ts + 5,
    }
}

fn plan(source: &str, target: &str, side: Side, id: &str, code: &str) -> TransactionPlan {
    TransactionPlan {
        source: source.to_string(),
        target: target.to_string(),
        side,
        instrument: id.to_string(),
        exchange_code: code.to_string(),
    }
}

// BTC -> USDT (sell), USDT -> ETH (buy), ETH -> BTC (sell)
fn plans() -> Vec<TransactionPlan> {
    vec![
        plan("BTC", "USDT", Side::Sell, "BINANCE_BTC_USDT", "BTCUSDT"),
        plan("USDT", "ETH", Side::Buy, "BINANCE_ETH_USDT", "ETHUSDT"),
        plan("ETH", "BTC", Side::Sell, "BINANCE_ETH_BTC", "ETHBTC"),
    ]
}

fn fee_free_cycle() -> Arbitrage {
    let mut a = Arbitrage::from_transaction_list(&plans());
    for l in a.transaction_list.iter_mut() {
        l.set_fee_rate(0);
    }
    a
}

// 1 BTC -> 100 USDT -> 0.5 ETH -> BTC at the ETH/BTC bid `eth_btc`
fn feed(a: &mut Arbitrage, eth_usdt_ask_qty: u64, eth_btc: u64) -> Option<tri_arb::arbitrage::ArbitrageProfit> {
    let q: u64 = 100_000_000;
    assert!(a.execute(&tick("BINANCE_BTC_USDT", 10_000_000_000, 10_000_000_000, DEEP, DEEP, 1_000), q, true).is_none());
    assert!(a.execute(&tick("BINANCE_ETH_USDT", 20_000_000_000, 20_000_000_000, eth_usdt_ask_qty, DEEP, 2_000), q, true).is_none());
    a.execute(&tick("BINANCE_ETH_BTC", eth_btc, eth_btc, DEEP, DEEP, 3_000), q, true)
}

#[test]
fn cycle_name_and_instruments() {
    let a = Arbitrage::from_transaction_list(&plans());
    assert_eq!(a.get_name(), "BTC-(SELL)->USDT:USDT-(BUY)->ETH:ETH-(SELL)->BTC");
    assert_eq!(a.get_instruments(), vec!["BINANCE_BTC_USDT", "BINANCE_ETH_USDT", "BINANCE_ETH_BTC"]);
    assert_eq!(a.instrument_list, a.get_instruments());
    assert_eq!(a.get_start_asset(), "BTC");
}

#[test]
fn repeated_instruments_listed_once() {
    let ps = vec![
        plan("BTC", "USDT", Side::Sell, "X_BTC_USDT", "BTCUSDT"),
        plan("USDT", "BTC", Side::Buy, "X_BTC_USDT", "BTCUSDT"),
        plan("BTC", "BTC", Side::Sell, "X_BTC_BTC", "BTCBTC"),
    ];
    let a = Arbitrage::from_transaction_list(&ps);
    assert_eq!(a.get_instruments(), vec!["X_BTC_USDT", "X_BTC_BTC"]);
}

#[test]
fn happy_path_without_scaling() {
    let mut a = fee_free_cycle();
    let p = feed(&mut a, DEEP, 202_000_000).unwrap();
    assert_eq!(p.get_qty_in(), 100_000_000);
    assert_eq!(p.get_qty_out(), 101_000_000);
    assert_eq!(p.get_profit(), 1_000_000);
    assert_eq!(p.get_profit(), p.get_qty_out() as i128 - p.get_qty_in() as i128);
    assert!(p.is_valid_ordering());
    assert_eq!(p.get_timestamp(), 3_000);
    assert_eq!(p.get_distance(), 2_000);
    assert_eq!(p.get_name(), a.get_name());
    assert_eq!(p.get_asset_list(), vec!["BTC", "USDT", "ETH"]);
    assert_eq!(p.get_transaction_result_list().len(), 3);
    assert_eq!(p.get_latency_ms(), p.create_at_ms as i128 - 3_005);
    assert_eq!((p.get_uuid() >> 76) & 0xf, 4);
    for r in p.get_transaction_result_list() {
        assert_eq!((r.get_uuid() >> 76) & 0xf, 4);
        assert_eq!((r.get_uuid() >> 62) & 0x3, 2);
    }
}

#[test]
fn depth_rescale() {
    let mut a = fee_free_cycle();
    // the purchase would take 0.5 ETH while 0.1 is offered: ratio 5
    let p = feed(&mut a, 10_000_000, 202_000_000).unwrap();
    assert_eq!(p.get_qty_in(), 20_000_000);
    assert_eq!(p.get_transaction_result_list()[1].get_qty_to_execute(), 10_000_000);
    assert_eq!(p.get_profit(), 200_000);
    assert!(p.is_valid_ordering());
}

#[test]
fn no_rescale_when_disabled() {
    let mut a = fee_free_cycle();
    let q: u64 = 100_000_000;
    a.execute(&tick("BINANCE_BTC_USDT", 10_000_000_000, 10_000_000_000, DEEP, DEEP, 1), q, false);
    a.execute(&tick("BINANCE_ETH_USDT", 20_000_000_000, 20_000_000_000, 10_000_000, DEEP, 2), q, false);
    let p = a.execute(&tick("BINANCE_ETH_BTC", 202_000_000, 202_000_000, DEEP, DEEP, 3), q, false).unwrap();
    assert_eq!(p.get_qty_in(), q);
    assert!(!p.is_valid_ordering());
}

#[test]
fn never_ready_leg_gives_nothing() {
    let mut a = fee_free_cycle();
    let q: u64 = 100_000_000;
    for _ in 0..3 {
        assert!(a.execute(&tick("BINANCE_BTC_USDT", 10_000_000_000, 10_000_000_000, DEEP, DEEP, 1), q, true).is_none());
        assert!(a.execute(&tick("BINANCE_ETH_BTC", 202_000_000, 202_000_000, DEEP, DEEP, 3), q, true).is_none());
    }
}

#[test]
fn invalid_tick_skips_leg() {
    let mut a = fee_free_cycle();
    assert!(feed(&mut a, DEEP, 202_000_000).is_some());
    let q: u64 = 100_000_000;
    assert!(a.execute(&tick("BINANCE_ETH_USDT", 0, 20_000_000_000, DEEP, DEEP, 4), q, true).is_none());
}

#[test]
fn negative_profit_is_reported_but_not_published() {
    let mut a = fee_free_cycle();
    let p = feed(&mut a, DEEP, 198_000_000).unwrap();
    assert_eq!(p.get_profit(), -1_000_000);

    let mut w = ArbitrageWorker::new(&plans(), 100_000_000, false);
    for l in w.arbitrage.transaction_list.iter_mut() {
        l.set_fee_rate(0);
    }
    assert!(w.on_tick(&tick("BINANCE_BTC_USDT", 10_000_000_000, 10_000_000_000, DEEP, DEEP, 1)).is_none());
    assert!(w.on_tick(&tick("BINANCE_ETH_USDT", 20_000_000_000, 20_000_000_000, DEEP, DEEP, 2)).is_none());
    assert!(w.on_tick(&tick("BINANCE_ETH_BTC", 198_000_000, 198_000_000, DEEP, DEEP, 3)).is_none());
    let p = w.on_tick(&tick("BINANCE_ETH_BTC", 202_000_000, 202_000_000, DEEP, DEEP, 4)).unwrap();
    assert_eq!(p.get_profit(), 1_000_000);
}

#[test]
fn worker_ignores_other_instruments() {
    let mut w = ArbitrageWorker::new(&plans(), 100_000_000, true);
    assert!(w.on_tick(&tick("BINANCE_XRP_BTC", 1, 1, 1, 1, 1)).is_none());
    assert!(w.arbitrage.transaction_list.iter().all(|l| !l.ready));
    assert!(w.on_tick(&tick("BINANCE_ETH_BTC", 1, 1, 1, 1, 1)).is_none());
    assert!(w.arbitrage.transaction_list[2].ready);
    assert!(!w.arbitrage.transaction_list[0].ready);
}

#[test]
fn worker_with_ordering_drops_invalid_orders() {
    let mut w = ArbitrageWorker::new(&plans(), 100_000_000, true);
    for l in w.arbitrage.transaction_list.iter_mut() {
        l.set_fee_rate(0);
    }
    let mut t = tick("BINANCE_BTC_USDT", 10_000_000_000, 10_000_000_000, DEEP, DEEP, 1);
    t.min_qty = 200_000_000;
    w.on_tick(&t);
    w.on_tick(&tick("BINANCE_ETH_USDT", 20_000_000_000, 20_000_000_000, DEEP, DEEP, 2));
    assert!(w.on_tick(&tick("BINANCE_ETH_BTC", 202_000_000, 202_000_000, DEEP, DEEP, 3)).is_none());
    w.ordering = false;
    assert!(w.on_tick(&tick("BINANCE_ETH_BTC", 202_000_000, 202_000_000, DEEP, DEEP, 4)).is_some());
}

fn strings(v: &[&str]) -> Vec<String> {
    v.iter().map(|s| s.to_string()).collect()
}

#[test]
fn topology_of_three_assets() {
    let listed = strings(&["BINANCE_ETH_BTC", "BINANCE_ETH_USDT", "BINANCE_BTC_USDT"]);
    let universe = strings(&["BTC", "ETH", "USDT"]);
    let r = build_topology(&"BINANCE".to_string(), &"BTC".to_string(), &universe, &listed, &listed);
    assert_eq!(r.len(), 2);
    let first: Vec<(String, String, Side, String, String)> = r[0]
        .iter()
        .map(|p| (p.source.clone(), p.target.clone(), p.side, p.instrument.clone(), p.exchange_code.clone()))
        .collect();
    assert_eq!(
        first,
        vec![
            ("BTC".to_string(), "ETH".to_string(), Side::Buy, "BINANCE_ETH_BTC".to_string(), "ETHBTC".to_string()),
            ("ETH".to_string(), "USDT".to_string(), Side::Sell, "BINANCE_ETH_USDT".to_string(), "ETHUSDT".to_string()),
            ("USDT".to_string(), "BTC".to_string(), Side::Buy, "BINANCE_BTC_USDT".to_string(), "BTCUSDT".to_string()),
        ]
    );
    let second: Vec<(String, Side)> = r[1].iter().map(|p| (p.instrument.clone(), p.side)).collect();
    assert_eq!(
        second,
        vec![
            ("BINANCE_BTC_USDT".to_string(), Side::Sell),
            ("BINANCE_ETH_USDT".to_string(), Side::Buy),
            ("BINANCE_ETH_BTC".to_string(), Side::Sell),
        ]
    );
    for t in &r {
        assert_eq!(t[0].source, "BTC");
        assert_eq!(t[2].target, "BTC");
        assert_eq!(t[0].target, t[1].source);
        assert_eq!(t[1].target, t[2].source);
    }
}

#[test]
fn missing_instrument_drops_cycle() {
    let listed = strings(&["BINANCE_ETH_BTC", "BINANCE_ETH_USDT", "BINANCE_BTC_USDT"]);
    let catalog = strings(&["BINANCE_ETH_BTC", "BINANCE_BTC_USDT"]);
    let universe = strings(&["BTC", "ETH", "USDT"]);
    let r = build_topology(&"BINANCE".to_string(), &"BTC".to_string(), &universe, &listed, &catalog);
    assert_eq!(r.len(), 0);
    let r = build_topology(&"BINANCE".to_string(), &"BTC".to_string(), &universe, &catalog, &listed);
    assert_eq!(r.len(), 0);
}

#[test]
fn topology_of_four_assets() {
    let listed = strings(&[
        "BINANCE_ETH_BTC",
        "BINANCE_ETH_USDT",
        "BINANCE_BTC_USDT",
        "BINANCE_BNB_BTC",
        "BINANCE_BNB_ETH",
    ]);
    let universe = strings(&["USDT", "BTC", "ETH", "BNB"]);
    let r = build_topology(&"BINANCE".to_string(), &"BTC".to_string(), &universe, &listed, &listed);
    // {USDT, BTC, ETH} and {BTC, ETH, BNB}, both directions each
    assert_eq!(r.len(), 4);
    assert_eq!(r[0][0].target, "USDT");
    assert_eq!(r[1][0].target, "ETH");
    assert_eq!(r[2][0].target, "ETH");
    assert_eq!(r[3][0].target, "BNB");
    let none = build_topology(&"BINANCE".to_string(), &"XRP".to_string(), &universe, &listed, &listed);
    assert!(none.is_empty());
}

#[test]
fn executor_builds_workers() {
    let listed = strings(&["BINANCE_ETH_BTC", "BINANCE_ETH_USDT", "BINANCE_BTC_USDT"]);
    let universe = strings(&["BTC", "ETH", "USDT"]);
    let mut e = ArbitrageExecutor::new("BINANCE".to_string(), "BTC".to_string(), &universe, 100_000_000, 0, false);
    assert!(e.get_instruments().is_empty());
    e.initialize(&listed, &listed);
    assert_eq!(e.transactions_list.len(), 2);
    let mut ids = e.get_instruments();
    ids.sort();
    assert_eq!(ids, strings(&["BINANCE_BTC_USDT", "BINANCE_ETH_BTC", "BINANCE_ETH_USDT"]));
    let ws = e.workers();
    assert_eq!(ws.len(), 2);
    assert_eq!(ws[1].arbitrage.get_name(), "BTC-(SELL)->USDT:USDT-(BUY)->ETH:ETH-(SELL)->BTC");
    assert_eq!(ws[0].qty_in, 100_000_000);
}

#[test]
fn orders_of_a_valid_profit() {
    let mut a = fee_free_cycle();
    let p = feed(&mut a, DEEP, 202_000_000).unwrap();
    let orders = order_requests(&p).unwrap();
    assert_eq!(orders.len(), 3);
    assert_eq!(orders[0].symbol, "BTCUSDT");
    assert_eq!(orders[0].side, Side::Sell);
    assert_eq!(orders[0].qty, 100_000_000);
    assert_eq!(orders[0].price, 10_000_000_000);
    assert_eq!(orders[1].symbol, "ETHUSDT");
    assert_eq!(orders[1].side, Side::Buy);
    assert_eq!(orders[1].qty, 50_000_000);
    assert_eq!(orders[1].price, 20_000_000_000);
    assert_eq!(orders[2].symbol, "ETHBTC");
    assert_eq!(orders[2].qty, 50_000_000);
}

#[test]
fn no_orders_for_an_invalid_profit() {
    let mut a = fee_free_cycle();
    let q: u64 = 100_000_000;
    a.execute(&tick("BINANCE_BTC_USDT", 10_000_000_000, 10_000_000_000, DEEP, DEEP, 1), q, false);
    a.execute(&tick("BINANCE_ETH_USDT", 20_000_000_000, 20_000_000_000, 10_000_000, DEEP, 2), q, false);
    let p = a.execute(&tick("BINANCE_ETH_BTC", 202_000_000, 202_000_000, DEEP, DEEP, 3), q, false).unwrap();
    assert!(order_requests(&p).is_none());
}

#[test]
fn sleep_setting() {
    assert_eq!(DEFAULT_SLEEP_MICROS, 10);
    assert_eq!(sleep_between_transactions(None), 10);
    assert_eq!(sleep_between_transactions(Some("250")), 250);
    assert_eq!(sleep_between_transactions(Some("007")), 7);
    assert_eq!(sleep_between_transactions(Some("")), 10);
    assert_eq!(sleep_between_transactions(Some("12a")), 10);
    assert_eq!(sleep_between_transactions(Some("-5")), 10);
    assert_eq!(sleep_between_transactions(Some("18446744073709551615")), u64::MAX);
    assert_eq!(sleep_between_transactions(Some("18446744073709551616")), 10);
}

#[test]
fn sleep_setting_with_plus_sign() {
    assert_eq!(sleep_between_transactions(Some("+5")), 5);
    assert_eq!(sleep_between_transactions(Some("+0")), 0);
    assert_eq!(sleep_between_transactions(Some("+18446744073709551615")), u64::MAX);
    assert_eq!(sleep_between_transactions(Some("+")), 10);
    assert_eq!(sleep_between_transactions(Some("++5")), 10);
    assert_eq!(sleep_between_transactions(Some("5+")), 10);
    assert_eq!(sleep_between_transactions(Some(" 5")), 10);
}

#[test]
fn rescaled_walk_is_always_made() {
    // one unit of depth: the walk is rescaled to two units and still reported
    let mut a = fee_free_cycle();
    let p = feed(&mut a, 1, 202_000_000).unwrap();
    assert_eq!(p.get_qty_in(), 2);
    assert_eq!(p.get_transaction_result_list()[1].get_qty_to_execute(), 1);
    assert_eq!(p.get_qty_out(), 2);
    assert_eq!(p.get_profit(), 0);
}
