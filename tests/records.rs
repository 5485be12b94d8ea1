use coinbaser::error::classify_response;
use coinbaser::{
    Currency, DayStat, Decimal, DummyDayStat, DummyHistoricRate, DummyOrder, DummyOrderBook,
    DummyOrderBookLvl3, DummyOrderLvl3, DummyProduct, DummyTicker, DummyTrade, HistoricRate,
    HttpGetError, Order, OrderBook, Product, State, Ticker, Trade, TradeSide, ValidationError,
};

fn dec(mantissa: i64, scale: u32) -> Decimal {
    Decimal { mantissa, scale }
}

fn currency(id: &str, name: &str, min_size: &str) -> Currency {
    Currency::from_wire(id.to_string(), name.to_string(), min_size).unwrap()
}

fn known() -> State {
    State::new(vec![
        currency("BTC", "Bitcoin", "0.00000001"),
        currency("USD", "United States Dollar", "0.01"),
        currency("EUR", "Euro", "0.01"),
    ])
}

fn product(id: &str) -> DummyProduct {
    DummyProduct {
        id: id.to_string(),
        base_currency: String::new(),
        quote_currency: String::new(),
        base_min_size: "0.01".to_string(),
        base_max_size: "10000".to_string(),
        quote_increment: "0.01".to_string(),
    }
}

#[test]
fn decimal_reads_exact_text() {
    assert_eq!(Decimal::parse("2.00"), Some(dec(200, 2)));
    assert_eq!(Decimal::parse("100.5"), Some(dec(1005, 1)));
    assert_eq!(Decimal::parse("-0.01"), Some(dec(-1, 2)));
    assert_eq!(Decimal::parse("3"), Some(dec(3, 0)));
    assert_eq!(Decimal::parse("9223372036854775807"), Some(dec(i64::MAX, 0)));
}

#[test]
fn decimal_rejects_other_text() {
    for bad in ["", "-", ".5", "5.", "1.2.3", "abc", "1e5", "--1", "9223372036854775808", "1,5"] {
        assert_eq!(Decimal::parse(bad), None, "{}", bad);
    }
}

#[test]
fn currency_keeps_its_fields() {
    let c = currency("BTC", "Bitcoin", "0.00000001");
    assert_eq!(c.id, "BTC");
    assert_eq!(c.name, "Bitcoin");
    assert_eq!(c.min_size, dec(1, 8));
    let bad = Currency::from_wire("BTC".to_string(), "Bitcoin".to_string(), "tiny");
    assert_eq!(bad, Err(ValidationError::BadDecimal("min_size".to_string())));
}

#[test]
fn duplicate_code_keeps_last() {
    let state = State::new(vec![
        currency("BTC", "Bitcoin", "0.01"),
        currency("BTC", "Bitcoin Renamed", "0.02"),
    ]);
    assert_eq!(state.currencies.len(), 1);
    let c = state.get_curr("BTC").unwrap();
    assert_eq!(c.name, "Bitcoin Renamed");
    assert_eq!(c.min_size, dec(2, 2));
}

#[test]
fn lookup_is_exact() {
    let state = known();
    assert!(state.get_curr("BTC").is_some());
    assert!(state.get_curr("btc").is_none());
    assert!(state.get_curr(" BTC").is_none());
    assert!(state.get_curr("").is_none());
}

#[test]
fn known_pair_resolves_in_order() {
    let state = known();
    let p = Product::from_dummy(&state, product("BTC-USD")).unwrap();
    assert_eq!(p.id, ("BTC".to_string(), "USD".to_string()));
    assert_eq!(p.base_currency.name, "Bitcoin");
    assert_eq!(p.quote_currency.name, "United States Dollar");
    assert_eq!(p.base_min_size, dec(1, 2));
    assert_eq!(p.base_max_size, dec(10000, 0));
    assert_eq!(p.quote_increment, dec(1, 2));
    let q = Product::from_dummy(&state, product("USD-BTC")).unwrap();
    assert_eq!(q.id, ("USD".to_string(), "BTC".to_string()));
}

#[test]
fn unknown_base_is_named() {
    let state = known();
    let r = Product::from_dummy(&state, product("XYZ-ABC"));
    assert_eq!(r, Err(ValidationError::BadCurrency("XYZ".to_string())));
    let r = Product::from_dummy(&state, product("BTC-ABC"));
    assert_eq!(r, Err(ValidationError::BadCurrency("ABC".to_string())));
}

#[test]
fn malformed_ids_are_parse_errors() {
    let state = known();
    for id in ["ABC", "BTC-USD-EUR", "-USD", "BTC-", "", "-", "BTC--USD"] {
        let r = Product::from_dummy(&state, product(id));
        assert_eq!(r, Err(ValidationError::MalformedId(id.to_string())), "{}", id);
    }
}

#[test]
fn product_amounts_are_checked() {
    let state = known();
    let mut p = product("BTC-USD");
    p.base_max_size = "lots".to_string();
    let r = Product::from_dummy(&state, p);
    assert_eq!(r, Err(ValidationError::BadDecimal("base_max_size".to_string())));
}

#[test]
fn level_two_book_decodes_in_order() {
    let d = DummyOrderBook {
        bids: vec![DummyOrder("100.5".to_string(), "2.0".to_string(), 3)],
        asks: vec![DummyOrder("101.0".to_string(), "1.5".to_string(), 2)],
    };
    let book = OrderBook::from_orderbook(d).unwrap();
    assert_eq!(book.bids.len(), 1);
    assert_eq!(book.asks.len(), 1);
    let bid = book.bids[0];
    assert_eq!(bid.price, dec(1005, 1));
    assert_eq!(bid.size, dec(20, 1));
    assert_eq!(bid.num_orders(), Some(3));
    assert_eq!(bid.id(), None);
    let ask = book.asks[0];
    assert_eq!(ask.price, dec(1010, 1));
    assert_eq!(ask.size, dec(15, 1));
    assert_eq!(ask.num_orders(), Some(2));
    assert_eq!(ask.id(), None);
}

#[test]
fn book_keeps_sequence_order() {
    let d = DummyOrderBook {
        bids: vec![
            DummyOrder("100.5".to_string(), "1".to_string(), 1),
            DummyOrder("100.4".to_string(), "2".to_string(), 2),
            DummyOrder("100.3".to_string(), "3".to_string(), 3),
        ],
        asks: vec![],
    };
    let book = OrderBook::from_orderbook(d).unwrap();
    let counts: Vec<Option<i32>> = book.bids.iter().map(|o| o.num_orders()).collect();
    assert_eq!(counts, vec![Some(1), Some(2), Some(3)]);
    assert!(book.asks.is_empty());
}

#[test]
fn book_fails_on_first_bad_entry() {
    let d = DummyOrderBook {
        bids: vec![
            DummyOrder("100.5".to_string(), "1".to_string(), 1),
            DummyOrder("x".to_string(), "y".to_string(), 2),
        ],
        asks: vec![DummyOrder("1".to_string(), "z".to_string(), 1)],
    };
    let r = OrderBook::from_orderbook(d);
    assert_eq!(r.unwrap_err(), ValidationError::BadDecimal("price".to_string()));
    let d = DummyOrderBook {
        bids: vec![],
        asks: vec![DummyOrder("1".to_string(), "z".to_string(), 1)],
    };
    let r = OrderBook::from_orderbook(d);
    assert_eq!(r.unwrap_err(), ValidationError::BadDecimal("size".to_string()));
}

#[test]
fn level_three_entry_carries_uuid() {
    let o = DummyOrderLvl3(
        "100.5".to_string(),
        "2.0".to_string(),
        "550e8400-e29b-41d4-a716-446655440000".to_string(),
    );
    let order = Order::from_order3(o).unwrap();
    assert_eq!(order.id(), Some(0x550e8400e29b41d4a716446655440000));
    assert_eq!(order.num_orders(), None);
    assert_eq!(order.price, dec(1005, 1));
    assert_eq!(order.size, dec(20, 1));
}

#[test]
fn level_three_bad_uuid_is_reported() {
    let o = DummyOrderLvl3("100.5".to_string(), "2.0".to_string(), "not-a-uuid".to_string());
    let r = Order::from_order3(o);
    assert_eq!(r, Err(ValidationError::BadUuid("not-a-uuid".to_string())));
    let with = Order::from_order3_with(
        DummyOrderLvl3("1".to_string(), "2".to_string(), "anything".to_string()),
        Some(7),
    );
    assert_eq!(with.unwrap().id(), Some(7));
}

#[test]
fn level_three_book() {
    let d = DummyOrderBookLvl3 {
        bids: vec![DummyOrderLvl3(
            "100.5".to_string(),
            "2.0".to_string(),
            "550e8400-e29b-41d4-a716-446655440000".to_string(),
        )],
        asks: vec![DummyOrderLvl3("101".to_string(), "1".to_string(), "zzz".to_string())],
    };
    let r = OrderBook::from_orderbook3(d);
    assert_eq!(r.unwrap_err(), ValidationError::BadUuid("zzz".to_string()));
}

#[test]
fn ticker_reads_time() {
    let t = DummyTicker {
        trade_id: 42,
        price: "250.10".to_string(),
        size: "0.5".to_string(),
        time: "2015-01-01T00:00:00Z".to_string(),
    };
    let k = Ticker::from_dummy(t).unwrap();
    assert_eq!(k.trade_id, 42);
    assert_eq!(k.price, dec(25010, 2));
    assert_eq!(k.size, dec(5, 1));
    assert_eq!(k.time.secs, 1420070400);
    assert_eq!(k.time.nanos, 0);
}

#[test]
fn ticker_bad_time() {
    let t = DummyTicker {
        trade_id: 1,
        price: "1".to_string(),
        size: "1".to_string(),
        time: "yesterday".to_string(),
    };
    assert_eq!(
        Ticker::from_dummy(t),
        Err(ValidationError::BadTimestamp("yesterday".to_string()))
    );
}

#[test]
fn trade_reads_fields() {
    let t = DummyTrade {
        time: "2015-01-01T01:00:00.5+01:00".to_string(),
        trade_id: 9_000_000_000,
        price: "1.5".to_string(),
        size: "2".to_string(),
        side: TradeSide::Sell,
    };
    let k = Trade::from_dummy(t).unwrap();
    assert_eq!(k.time.secs, 1420070400);
    assert_eq!(k.time.nanos, 500_000_000);
    assert_eq!(k.trade_id, 9_000_000_000);
    assert_eq!(k.side, TradeSide::Sell);
    assert_eq!(k.price, dec(15, 1));
}

#[test]
fn trade_time_checked_first() {
    let t = DummyTrade {
        time: "bad".to_string(),
        trade_id: 1,
        price: "also bad".to_string(),
        size: "2".to_string(),
        side: TradeSide::Buy,
    };
    assert_eq!(Trade::from_dummy(t), Err(ValidationError::BadTimestamp("bad".to_string())));
}

#[test]
fn candle_reads_fields() {
    let t = DummyHistoricRate {
        time: "2015-01-01T00:00:00Z".to_string(),
        low: "1".to_string(),
        high: "2".to_string(),
        open: "1.5".to_string(),
        close: "1.75".to_string(),
        volume: "100".to_string(),
    };
    let k = HistoricRate::from_dummy(t.clone()).unwrap();
    assert_eq!(k.close, dec(175, 2));
    assert_eq!(k.volume, dec(100, 0));
    let mut bad = t;
    bad.close = "?".to_string();
    assert_eq!(HistoricRate::from_dummy(bad), Err(ValidationError::BadDecimal("close".to_string())));
}

#[test]
fn day_stats() {
    let t = DummyDayStat {
        open: "1".to_string(),
        high: "2".to_string(),
        low: "0.5".to_string(),
        volume: "x".to_string(),
    };
    assert_eq!(DayStat::from_dummy(t.clone()), Err(ValidationError::BadDecimal("volume".to_string())));
    let mut good = t;
    good.volume = "10".to_string();
    let s = DayStat::from_dummy(good).unwrap();
    assert_eq!(s.low, dec(5, 1));
}

#[test]
fn non_success_status_keeps_body() {
    let r = classify_response(429, "rate limited".to_string());
    assert_eq!(r, Err(HttpGetError::BadStatus(429, "rate limited".to_string())));
    assert_eq!(classify_response(200, "[]".to_string()), Ok("[]".to_string()));
    assert_eq!(classify_response(204, String::new()), Ok(String::new()));
    assert!(classify_response(301, "moved".to_string()).is_err());
}

#[test]
fn decimal_writes_text() {
    assert_eq!(dec(200, 2).to_text(), "2.00");
    assert_eq!(dec(1, 2).to_text(), "0.01");
    assert_eq!(dec(-1005, 1).to_text(), "-100.5");
    assert_eq!(dec(0, 0).to_text(), "0");
    assert_eq!(dec(-7, 0).to_text(), "-7");
    assert_eq!(dec(i64::MAX, 3).to_text(), "9223372036854775.807");
    assert_eq!(dec(i64::MIN, 0).to_text(), "-9223372036854775808");
}

#[test]
fn currency_record_round_trips() {
    for (id, name, min_size) in [
        ("BTC", "Bitcoin", "0.00000001"),
        ("USD", "United States Dollar", "0.01"),
        ("XRP", "Ripple", "1"),
        ("ODD", "Negative Test", "-12.50"),
    ] {
        let c = currency(id, name, min_size);
        let (i, n, m) = c.to_wire();
        assert_eq!((i.as_str(), n.as_str(), m.as_str()), (id, name, min_size));
        let again = Currency::from_wire(i, n, &m).unwrap();
        assert_eq!(again, c);
    }
}

#[test]
fn trade_side_from_wire() {
    assert_eq!(TradeSide::from_wire("buy"), Some(TradeSide::Buy));
    assert_eq!(TradeSide::from_wire("sell"), Some(TradeSide::Sell));
    assert_eq!(TradeSide::from_wire("Buy"), None);
    assert_eq!(TradeSide::from_wire(""), None);
}
