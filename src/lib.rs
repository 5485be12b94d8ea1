//! Client-side model of an exchange's public market-data API.
//!
//! Raw responses are decoded into wire shapes (`Dummy*` records that mirror
//! the JSON exactly) and then resolved into validated domain records. Product
//! resolution cross-checks currency codes against a [`State`], the set of
//! currencies known to the session.
pub mod text;
pub mod decimal;
pub mod error;
pub mod reference;
pub mod product;
pub mod order;
pub mod market;

pub use decimal::Decimal;
pub use error::{HttpGetError, ValidationError};
pub use reference::{Currency, State};
pub use product::{DummyProduct, Product};
pub use order::{DummyOrder, DummyOrderBook, DummyOrderBookLvl3, DummyOrderLvl3, Order, OrderBook, OrderDetail};
pub use market::{DayStat, DummyDayStat, DummyHistoricRate, DummyTicker, DummyTrade, HistoricRate, Ticker, Timestamp, Trade, TradeSide};
