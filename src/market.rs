//! Tickers, trades, candles and daily statistics.
use vstd::prelude::*;
use crate::decimal::{parsed_decimal, Decimal};
use crate::error::ValidationError;

verus! {

/// The instant that RFC 3339 text names, as whole seconds since the Unix
/// epoch and the nanoseconds past them; `None` where the text names none.
pub uninterp spec fn utc_instant(s: Seq<char>) -> Option<(i64, u32)>;

/// Relies on chrono's `FromStr` for `DateTime<Utc>` (a relaxed RFC 3339
/// reader) and on `DateTime::timestamp` and `DateTime::timestamp_subsec_nanos`
/// for the instant read; all depend on the text alone.
#[verifier::external_body]
fn parse_utc(s: &str) -> (r: Option<(i64, u32)>)
    ensures
        r == utc_instant(s@),
{
    match s.parse::<chrono::DateTime<chrono::Utc>>() {
        Ok(t) => Some((t.timestamp(), t.timestamp_subsec_nanos())),
        Err(_) => None,
    }
}

/// A UTC instant: seconds since the Unix epoch and nanoseconds past them.
#[derive(Clone, Copy, Debug, PartialEq, Eq, Structural)]
pub struct Timestamp {
    pub secs: i64,
    pub nanos: u32,
}

pub open spec fn instant(p: (i64, u32)) -> Timestamp {
    Timestamp { secs: p.0, nanos: p.1 }
}

/// `e` reports the named amount field.
pub open spec fn names_field(e: ValidationError, field: Seq<char>) -> bool {
    e matches ValidationError::BadDecimal(f) && f@ == field
}

/// `e` reports time text that is no timestamp.
pub open spec fn names_time(e: ValidationError, text: Seq<char>) -> bool {
    e matches ValidationError::BadTimestamp(t) && t@ == text
}

/// `Some(d)` where `s` is decimal text denoting `d`.
pub open spec fn amount(s: Seq<char>, d: Decimal) -> bool {
    parsed_decimal(s) == Some(d)
}

fn decimal_field(text: &String, field: &str) -> (r: Result<Decimal, ValidationError>)
    ensures
        match parsed_decimal(text@) {
            Some(d) => r == Ok::<Decimal, ValidationError>(d),
            None => r matches Err(e) && names_field(e, field@),
        },
{
    match Decimal::parse(text.as_str()) {
        Some(d) => Ok(d),
        None => Err(ValidationError::BadDecimal(String::from_str(field))),
    }
}

fn time_field(text: &String, parsed: Option<(i64, u32)>) -> (r: Result<Timestamp, ValidationError>)
    ensures
        match parsed {
            Some(p) => r == Ok::<Timestamp, ValidationError>(instant(p)),
            None => r matches Err(e) && names_time(e, text@),
        },
{
    match parsed {
        Some((secs, nanos)) => Ok(Timestamp { secs, nanos }),
        None => Err(ValidationError::BadTimestamp(text.clone())),
    }
}

/// The latest trade of a product.
#[derive(Clone, Copy, Debug, PartialEq, Eq)]
pub struct Ticker {
    pub trade_id: i32,
    pub price: Decimal,
    pub size: Decimal,
    pub time: Timestamp,
}

/// A ticker as sent.
#[derive(Debug, Clone)]
pub struct DummyTicker {
    pub trade_id: i32,
    pub price: String,
    pub size: String,
    pub time: String,
}

impl Ticker {
    /// Resolves a wire ticker whose time text read as `time` (`None`: it
    /// names no instant). Fields are checked in order: price, size, time.
    pub fn from_dummy_at(t: DummyTicker, time: Option<(i64, u32)>) -> (r: Result<Ticker, ValidationError>)
        ensures
            match r {
                Ok(k) => k.trade_id == t.trade_id && amount(t.price@, k.price) && amount(
                    t.size@,
                    k.size,
                ) && time == Some(
                    (k.time.secs, k.time.nanos),
                ),
                Err(e) => if parsed_decimal(t.price@) is None {
                    names_field(e, "price"@)
                } else if parsed_decimal(t.size@) is None {
                    names_field(e, "size"@)
                } else if time is None {
                    names_time(e, t.time@)
                } else {
                    false
                },
            },
    {
        let price = match decimal_field(&t.price, "price") {
            Ok(d) => d,
            Err(e) => {
                return Err(e);
            },
        };
        let size = match decimal_field(&t.size, "size") {
            Ok(d) => d,
            Err(e) => {
                return Err(e);
            },
        };
        let time = match time_field(&t.time, time) {
            Ok(v) => v,
            Err(e) => {
                return Err(e);
            },
        };
        Ok(Ticker { trade_id: t.trade_id, price, size, time })
    }

    /// Resolves a wire ticker; its time must be RFC 3339 text.
    pub fn from_dummy(t: DummyTicker) -> (r: Result<Ticker, ValidationError>)
        ensures
            match r {
                Ok(k) => k.trade_id == t.trade_id && amount(t.price@, k.price) && amount(
                    t.size@,
                    k.size,
                ) && utc_instant(t.time@) == Some((k.time.secs, k.time.nanos)),
                Err(e) => if parsed_decimal(t.price@) is None {
                    names_field(e, "price"@)
                } else if parsed_decimal(t.size@) is None {
                    names_field(e, "size"@)
                } else if utc_instant(t.time@) is None {
                    names_time(e, t.time@)
                } else {
                    false
                },
            },
    {
        let time = parse_utc(t.time.as_str());
        Ticker::from_dummy_at(t, time)
    }
}

/// Which side of the book the taker of a trade was on.
#[derive(Clone, Copy, Debug, PartialEq, Eq, Structural)]
pub enum TradeSide {
    Buy,
    Sell,
}

impl TradeSide {
    /// Reads the side as the API writes it: `"buy"` or `"sell"`.
    pub fn from_wire(s: &str) -> (r: Option<TradeSide>)
        ensures
            r == (if s@ == "buy"@ {
                Some(TradeSide::Buy)
            } else if s@ == "sell"@ {
                Some(TradeSide::Sell)
            } else {
                None
            }),
    {
        let text = String::from_str(s);
        if text == String::from_str("buy") {
            Some(TradeSide::Buy)
        } else if text == String::from_str("sell") {
            Some(TradeSide::Sell)
        } else {
            None
        }
    }
}

/// One trade of a product.
#[derive(Clone, Copy, Debug, PartialEq, Eq)]
pub struct Trade {
    pub time: Timestamp,
    pub trade_id: i64,
    pub price: Decimal,
    pub size: Decimal,
    pub side: TradeSide,
}

/// A trade as sent.
#[derive(Debug, Clone)]
pub struct DummyTrade {
    pub time: String,
    pub trade_id: i64,
    pub price: String,
    pub size: String,
    pub side: TradeSide,
}

impl Trade {
    /// Resolves a wire trade whose time text read as `time` (`None`: it
    /// names no instant). Fields are checked in order: time, price, size.
    pub fn from_dummy_at(t: DummyTrade, time: Option<(i64, u32)>) -> (r: Result<Trade, ValidationError>)
        ensures
            match r {
                Ok(k) => time == Some((k.time.secs, k.time.nanos)) && k.trade_id == t.trade_id
                    && amount(t.price@, k.price) && amount(t.size@, k.size) && k.side == t.side,
                Err(e) => if time is None {
                    names_time(e, t.time@)
                } else if parsed_decimal(t.price@) is None {
                    names_field(e, "price"@)
                } else if parsed_decimal(t.size@) is None {
                    names_field(e, "size"@)
                } else {
                    false
                },
            },
    {
        let time = match time_field(&t.time, time) {
            Ok(v) => v,
            Err(e) => {
                return Err(e);
            },
        };
        let price = match decimal_field(&t.price, "price") {
            Ok(d) => d,
            Err(e) => {
                return Err(e);
            },
        };
        let size = match decimal_field(&t.size, "size") {
            Ok(d) => d,
            Err(e) => {
                return Err(e);
            },
        };
        Ok(Trade { time, trade_id: t.trade_id, price, size, side: t.side })
    }

    /// Resolves a wire trade; its time must be RFC 3339 text.
    pub fn from_dummy(t: DummyTrade) -> (r: Result<Trade, ValidationError>)
        ensures
            match r {
                Ok(k) => utc_instant(t.time@) == Some((k.time.secs, k.time.nanos)) && k.trade_id
                    == t.trade_id && amount(t.price@, k.price) && amount(t.size@, k.size) && k.side
                    == t.side,
                Err(e) => if utc_instant(t.time@) is None {
                    names_time(e, t.time@)
                } else if parsed_decimal(t.price@) is None {
                    names_field(e, "price"@)
                } else if parsed_decimal(t.size@) is None {
                    names_field(e, "size"@)
                } else {
                    false
                },
            },
    {
        let time = parse_utc(t.time.as_str());
        Trade::from_dummy_at(t, time)
    }
}

/// One candle: the price range and volume of a time bucket.
#[derive(Clone, Copy, Debug, PartialEq, Eq)]
pub struct HistoricRate {
    pub time: Timestamp,
    pub low: Decimal,
    pub high: Decimal,
    pub open: Decimal,
    pub close: Decimal,
    pub volume: Decimal,
}

/// A candle as sent.
#[derive(Debug, Clone)]
pub struct DummyHistoricRate {
    pub time: String,
    pub low: String,
    pub high: String,
    pub open: String,
    pub close: String,
    pub volume: String,
}

/// `e` reports the first amount of a candle that is not decimal text, in the
/// order low, high, open, close, volume; false where all are.
pub open spec fn candle_amount_error(t: DummyHistoricRate, e: ValidationError) -> bool {
    if parsed_decimal(t.low@) is None {
        names_field(e, "low"@)
    } else if parsed_decimal(t.high@) is None {
        names_field(e, "high"@)
    } else if parsed_decimal(t.open@) is None {
        names_field(e, "open"@)
    } else if parsed_decimal(t.close@) is None {
        names_field(e, "close"@)
    } else if parsed_decimal(t.volume@) is None {
        names_field(e, "volume"@)
    } else {
        false
    }
}

/// `k` holds the amounts of `t`.
pub open spec fn candle_amounts(t: DummyHistoricRate, k: HistoricRate) -> bool {
    amount(t.low@, k.low) && amount(t.high@, k.high) && amount(t.open@, k.open) && amount(
        t.close@,
        k.close,
    ) && amount(t.volume@, k.volume)
}

impl HistoricRate {
    /// Resolves a wire candle whose time text read as `time` (`None`: it
    /// names no instant). The time is checked first, then the amounts.
    pub fn from_dummy_at(t: DummyHistoricRate, time: Option<(i64, u32)>) -> (r: Result<HistoricRate, ValidationError>)
        ensures
            match r {
                Ok(k) => time == Some((k.time.secs, k.time.nanos)) && candle_amounts(t, k),
                Err(e) => if time is None {
                    names_time(e, t.time@)
                } else {
                    candle_amount_error(t, e)
                },
            },
    {
        let time = match time_field(&t.time, time) {
            Ok(v) => v,
            Err(e) => {
                return Err(e);
            },
        };
        let low = match decimal_field(&t.low, "low") {
            Ok(d) => d,
            Err(e) => {
                return Err(e);
            },
        };
        let high = match decimal_field(&t.high, "high") {
            Ok(d) => d,
            Err(e) => {
                return Err(e);
            },
        };
        let open = match decimal_field(&t.open, "open") {
            Ok(d) => d,
            Err(e) => {
                return Err(e);
            },
        };
        let close = match decimal_field(&t.close, "close") {
            Ok(d) => d,
            Err(e) => {
                return Err(e);
            },
        };
        let volume = match decimal_field(&t.volume, "volume") {
            Ok(d) => d,
            Err(e) => {
                return Err(e);
            },
        };
        Ok(HistoricRate { time, low, high, open, close, volume })
    }

    /// Resolves a wire candle; its time must be RFC 3339 text.
    pub fn from_dummy(t: DummyHistoricRate) -> (r: Result<HistoricRate, ValidationError>)
        ensures
            match r {
                Ok(k) => utc_instant(t.time@) == Some((k.time.secs, k.time.nanos)) && candle_amounts(
                    t,
                    k,
                ),
                Err(e) => if utc_instant(t.time@) is None {
                    names_time(e, t.time@)
                } else {
                    candle_amount_error(t, e)
                },
            },
    {
        let time = parse_utc(t.time.as_str());
        HistoricRate::from_dummy_at(t, time)
    }
}

/// Statistics of the last 24 hours.
#[derive(Clone, Copy, Debug, PartialEq, Eq)]
pub struct DayStat {
    pub open: Decimal,
    pub high: Decimal,
    pub low: Decimal,
    pub volume: Decimal,
}

/// Daily statistics as sent.
#[derive(Debug, Clone)]
pub struct DummyDayStat {
    pub open: String,
    pub high: String,
    pub low: String,
    pub volume: String,
}

impl DayStat {
    /// Reads the four amounts, in the order open, high, low, volume; the
    /// first that is not decimal text is reported.
    pub fn from_dummy(t: DummyDayStat) -> (r: Result<DayStat, ValidationError>)
        ensures
            match r {
                Ok(k) => amount(t.open@, k.open) && amount(t.high@, k.high) && amount(t.low@, k.low)
                    && amount(t.volume@, k.volume),
                Err(e) => if parsed_decimal(t.open@) is None {
                    names_field(e, "open"@)
                } else if parsed_decimal(t.high@) is None {
                    names_field(e, "high"@)
                } else if parsed_decimal(t.low@) is None {
                    names_field(e, "low"@)
                } else if parsed_decimal(t.volume@) is None {
                    names_field(e, "volume"@)
                } else {
                    false
                },
            },
    {
        let open = match decimal_field(&t.open, "open") {
            Ok(d) => d,
            Err(e) => {
                return Err(e);
            },
        };
        let high = match decimal_field(&t.high, "high") {
            Ok(d) => d,
            Err(e) => {
                return Err(e);
            },
        };
        let low = match decimal_field(&t.low, "low") {
            Ok(d) => d,
            Err(e) => {
                return Err(e);
            },
        };
        let volume = match decimal_field(&t.volume, "volume") {
            Ok(d) => d,
            Err(e) => {
                return Err(e);
            },
        };
        Ok(DayStat { open, high, low, volume })
    }
}

} // verus!
