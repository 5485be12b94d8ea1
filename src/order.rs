//! Order-book entries and books, at the summary (1, 2) and full (3) levels.
use vstd::prelude::*;
use crate::decimal::{parsed_decimal, Decimal};
use crate::error::ValidationError;

verus! {

/// What the UUID text denotes, as its 128-bit value; `None` where the text is
/// no UUID.
pub uninterp spec fn uuid_value(s: Seq<char>) -> Option<u128>;

/// Relies on `uuid::Uuid::parse_str` (which `Uuid::from_str` calls) to read
/// the text, and on `Uuid::as_u128` for its value; both depend on the text
/// alone.
#[verifier::external_body]
fn parse_uuid(s: &str) -> (r: Option<u128>)
    ensures
        r == uuid_value(s@),
{
    match uuid::Uuid::parse_str(s) {
        Ok(u) => Some(u.as_u128()),
        Err(_) => None,
    }
}

/// What an entry carries besides price and size: an aggregate order count
/// (levels 1 and 2) or one order's id (level 3).
#[derive(Clone, Copy, Debug, PartialEq, Eq, Structural)]
pub enum OrderDetail {
    Summary(i32),
    Identified(u128),
}

/// One entry of an order book.
#[derive(Clone, Copy, Debug, PartialEq, Eq, Structural)]
pub struct Order {
    pub price: Decimal,
    pub size: Decimal,
    pub detail: OrderDetail,
}

/// A level 1 or 2 entry as sent: `[price, size, num_orders]`.
#[derive(Debug, Clone, PartialEq)]
pub struct DummyOrder(pub String, pub String, pub i32);

/// A level 3 entry as sent: `[price, size, order_id]`.
#[derive(Debug, Clone, PartialEq)]
pub struct DummyOrderLvl3(pub String, pub String, pub String);

/// The entry a level 1 or 2 triple resolves to, if its amounts are decimals.
pub open spec fn summary_order(o: DummyOrder) -> Option<Order> {
    match (parsed_decimal(o.0@), parsed_decimal(o.1@)) {
        (Some(p), Some(s)) => Some(Order { price: p, size: s, detail: OrderDetail::Summary(o.2) }),
        _ => None,
    }
}

/// `e` is the error that resolving a level 1 or 2 triple reports.
pub open spec fn summary_error(o: DummyOrder, e: ValidationError) -> bool {
    if parsed_decimal(o.0@) is None {
        e matches ValidationError::BadDecimal(f) && f@ == "price"@
    } else if parsed_decimal(o.1@) is None {
        e matches ValidationError::BadDecimal(f) && f@ == "size"@
    } else {
        false
    }
}

/// The entry a level 3 triple resolves to, given what its id text parsed to.
pub open spec fn identified_order_with(o: DummyOrderLvl3, id: Option<u128>) -> Option<Order> {
    match (parsed_decimal(o.0@), parsed_decimal(o.1@), id) {
        (Some(p), Some(s), Some(u)) => Some(
            Order { price: p, size: s, detail: OrderDetail::Identified(u) },
        ),
        _ => None,
    }
}

/// `e` is the error that resolving a level 3 triple reports, given what its
/// id text parsed to.
pub open spec fn identified_error_with(o: DummyOrderLvl3, id: Option<u128>, e: ValidationError) -> bool {
    if parsed_decimal(o.0@) is None {
        e matches ValidationError::BadDecimal(f) && f@ == "price"@
    } else if parsed_decimal(o.1@) is None {
        e matches ValidationError::BadDecimal(f) && f@ == "size"@
    } else if id is None {
        e matches ValidationError::BadUuid(t) && t@ == o.2@
    } else {
        false
    }
}

pub open spec fn identified_order(o: DummyOrderLvl3) -> Option<Order> {
    identified_order_with(o, uuid_value(o.2@))
}

pub open spec fn identified_error(o: DummyOrderLvl3, e: ValidationError) -> bool {
    identified_error_with(o, uuid_value(o.2@), e)
}

/// Every triple of a side resolves.
pub open spec fn all_summaries(src: Seq<DummyOrder>) -> bool {
    forall|i: int| 0 <= i < src.len() ==> (#[trigger] summary_order(src[i])) is Some
}

/// `out` holds the resolved triples of `src`, in the same order.
pub open spec fn summaries_of(src: Seq<DummyOrder>, out: Seq<Order>) -> bool {
    out.len() == src.len() && forall|i: int|
        0 <= i < src.len() ==> Some(#[trigger] out[i]) == summary_order(src[i])
}

/// `e` is the error of the first triple of `src` that does not resolve.
pub open spec fn first_summary_error(src: Seq<DummyOrder>, e: ValidationError) -> bool {
    exists|i: int|
        0 <= i < src.len() && (forall|j: int| 0 <= j < i ==> (#[trigger] summary_order(src[j])) is Some)
            && summary_error(#[trigger] src[i], e)
}

pub open spec fn all_identified(src: Seq<DummyOrderLvl3>) -> bool {
    forall|i: int| 0 <= i < src.len() ==> (#[trigger] identified_order(src[i])) is Some
}

pub open spec fn identified_of(src: Seq<DummyOrderLvl3>, out: Seq<Order>) -> bool {
    out.len() == src.len() && forall|i: int|
        0 <= i < src.len() ==> Some(#[trigger] out[i]) == identified_order(src[i])
}

pub open spec fn first_identified_error(src: Seq<DummyOrderLvl3>, e: ValidationError) -> bool {
    exists|i: int|
        0 <= i < src.len() && (forall|j: int| 0 <= j < i ==> (#[trigger] identified_order(src[j])) is Some)
            && identified_error(#[trigger] src[i], e)
}

fn bad_decimal(field: &str) -> (r: ValidationError)
    ensures
        r matches ValidationError::BadDecimal(f) && f@ == field@,
{
    ValidationError::BadDecimal(String::from_str(field))
}

fn summary_of(o: &DummyOrder) -> (r: Result<Order, ValidationError>)
    ensures
        match r {
            Ok(v) => summary_order(*o) == Some(v),
            Err(e) => summary_order(*o) is None && summary_error(*o, e),
        },
{
    let price = match Decimal::parse(o.0.as_str()) {
        Some(d) => d,
        None => {
            return Err(bad_decimal("price"));
        },
    };
    let size = match Decimal::parse(o.1.as_str()) {
        Some(d) => d,
        None => {
            return Err(bad_decimal("size"));
        },
    };
    Ok(Order { price, size, detail: OrderDetail::Summary(o.2) })
}

fn identified_of_with(o: &DummyOrderLvl3, id: Option<u128>) -> (r: Result<Order, ValidationError>)
    ensures
        match r {
            Ok(v) => identified_order_with(*o, id) == Some(v),
            Err(e) => identified_order_with(*o, id) is None && identified_error_with(*o, id, e),
        },
{
    let price = match Decimal::parse(o.0.as_str()) {
        Some(d) => d,
        None => {
            return Err(bad_decimal("price"));
        },
    };
    let size = match Decimal::parse(o.1.as_str()) {
        Some(d) => d,
        None => {
            return Err(bad_decimal("size"));
        },
    };
    match id {
        Some(u) => Ok(Order { price, size, detail: OrderDetail::Identified(u) }),
        None => Err(ValidationError::BadUuid(o.2.clone())),
    }
}

fn identified_entry(o: &DummyOrderLvl3) -> (r: Result<Order, ValidationError>)
    ensures
        match r {
            Ok(v) => identified_order(*o) == Some(v),
            Err(e) => identified_order(*o) is None && identified_error(*o, e),
        },
{
    let id = parse_uuid(o.2.as_str());
    identified_of_with(o, id)
}

impl Order {
    /// Resolves a level 1 or 2 triple: price and size must be decimal text.
    pub fn from_order(o: DummyOrder) -> (r: Result<Order, ValidationError>)
        ensures
            match r {
                Ok(v) => summary_order(o) == Some(v),
                Err(e) => summary_order(o) is None && summary_error(o, e),
            },
    {
        summary_of(&o)
    }

    /// Resolves a level 3 triple whose id text parsed to `id` (`None`: it is
    /// no UUID).
    pub fn from_order3_with(o: DummyOrderLvl3, id: Option<u128>) -> (r: Result<Order, ValidationError>)
        ensures
            match r {
                Ok(v) => identified_order_with(o, id) == Some(v),
                Err(e) => identified_order_with(o, id) is None && identified_error_with(o, id, e),
            },
    {
        identified_of_with(&o, id)
    }

    /// Resolves a level 3 triple; its third field must be a UUID.
    pub fn from_order3(o: DummyOrderLvl3) -> (r: Result<Order, ValidationError>)
        ensures
            match r {
                Ok(v) => identified_order(o) == Some(v),
                Err(e) => identified_order(o) is None && identified_error(o, e),
            },
    {
        identified_entry(&o)
    }

    /// The aggregate order count of a level 1 or 2 entry.
    pub fn num_orders(&self) -> (r: Option<i32>)
        ensures
            r == match self.detail {
                OrderDetail::Summary(n) => Some(n),
                OrderDetail::Identified(_) => None::<i32>,
            },
    {
        match self.detail {
            OrderDetail::Summary(n) => Some(n),
            OrderDetail::Identified(_) => None,
        }
    }

    /// The order id of a level 3 entry.
    pub fn id(&self) -> (r: Option<u128>)
        ensures
            r == match self.detail {
                OrderDetail::Summary(_) => None::<u128>,
                OrderDetail::Identified(u) => Some(u),
            },
    {
        match self.detail {
            OrderDetail::Summary(_) => None,
            OrderDetail::Identified(u) => Some(u),
        }
    }
}

fn summary_side(src: &Vec<DummyOrder>) -> (r: Result<Vec<Order>, ValidationError>)
    ensures
        r is Ok <==> all_summaries(src@),
        r matches Ok(out) ==> summaries_of(src@, out@),
        r matches Err(e) ==> first_summary_error(src@, e),
{
    let mut out: Vec<Order> = Vec::new();
    let mut i: usize = 0;
    while i < src.len()
        invariant
            i <= src@.len(),
            out@.len() == i,
            forall|j: int| 0 <= j < i ==> Some(#[trigger] out@[j]) == summary_order(src@[j]),
        decreases src@.len() - i,
    {
        match summary_of(&src[i]) {
            Ok(o) => out.push(o),
            Err(e) => {
                proof {
                    assert(forall|j: int| 0 <= j < i ==> (#[trigger] summary_order(src@[j])) is Some) by {
                        assert forall|j: int| 0 <= j < i implies (#[trigger] summary_order(src@[j])) is Some by {
                            assert(Some(out@[j]) == summary_order(src@[j]));
                        }
                    }
                    assert(summary_error(src@[i as int], e));
                    assert(!((#[trigger] summary_order(src@[i as int])) is Some));
                }
                return Err(e);
            },
        }
        i = i + 1;
    }
    proof {
        assert forall|j: int| 0 <= j < src@.len() implies (#[trigger] summary_order(src@[j])) is Some by {
            assert(Some(out@[j]) == summary_order(src@[j]));
        }
    }
    Ok(out)
}

fn identified_side(src: &Vec<DummyOrderLvl3>) -> (r: Result<Vec<Order>, ValidationError>)
    ensures
        r is Ok <==> all_identified(src@),
        r matches Ok(out) ==> identified_of(src@, out@),
        r matches Err(e) ==> first_identified_error(src@, e),
{
    let mut out: Vec<Order> = Vec::new();
    let mut i: usize = 0;
    while i < src.len()
        invariant
            i <= src@.len(),
            out@.len() == i,
            forall|j: int| 0 <= j < i ==> Some(#[trigger] out@[j]) == identified_order(src@[j]),
        decreases src@.len() - i,
    {
        match identified_entry(&src[i]) {
            Ok(o) => out.push(o),
            Err(e) => {
                proof {
                    assert forall|j: int| 0 <= j < i implies (#[trigger] identified_order(src@[j])) is Some by {
                        assert(Some(out@[j]) == identified_order(src@[j]));
                    }
                    assert(identified_error(src@[i as int], e));
                    assert(!((#[trigger] identified_order(src@[i as int])) is Some));
                }
                return Err(e);
            },
        }
        i = i + 1;
    }
    proof {
        assert forall|j: int| 0 <= j < src@.len() implies (#[trigger] identified_order(src@[j])) is Some by {
            assert(Some(out@[j]) == identified_order(src@[j]));
        }
    }
    Ok(out)
}

/// An order book: bids and asks, each best price first as the exchange sent
/// them.
#[derive(Debug, Clone)]
pub struct OrderBook {
    pub bids: Vec<Order>,
    pub asks: Vec<Order>,
}

/// A level 1 or 2 book as sent.
#[derive(Debug, Clone)]
pub struct DummyOrderBook {
    pub bids: Vec<DummyOrder>,
    pub asks: Vec<DummyOrder>,
}

/// A level 3 book as sent.
#[derive(Debug, Clone)]
pub struct DummyOrderBookLvl3 {
    pub bids: Vec<DummyOrderLvl3>,
    pub asks: Vec<DummyOrderLvl3>,
}

impl OrderBook {
    /// Resolves every entry of a level 1 or 2 book, bids before asks, each
    /// side in order; the first entry that fails decides the error and no
    /// book is built.
    pub fn from_orderbook(d: DummyOrderBook) -> (r: Result<OrderBook, ValidationError>)
        ensures
            r is Ok <==> all_summaries(d.bids@) && all_summaries(d.asks@),
            r matches Ok(b) ==> summaries_of(d.bids@, b.bids@) && summaries_of(d.asks@, b.asks@),
            r matches Err(e) ==> if all_summaries(d.bids@) {
                first_summary_error(d.asks@, e)
            } else {
                first_summary_error(d.bids@, e)
            },
    {
        let bids = match summary_side(&d.bids) {
            Ok(v) => v,
            Err(e) => {
                return Err(e);
            },
        };
        let asks = match summary_side(&d.asks) {
            Ok(v) => v,
            Err(e) => {
                return Err(e);
            },
        };
        Ok(OrderBook { bids, asks })
    }

    /// Resolves every entry of a level 3 book, bids before asks, each side in
    /// order; the first entry that fails decides the error and no book is
    /// built.
    pub fn from_orderbook3(d: DummyOrderBookLvl3) -> (r: Result<OrderBook, ValidationError>)
        ensures
            r is Ok <==> all_identified(d.bids@) && all_identified(d.asks@),
            r matches Ok(b) ==> identified_of(d.bids@, b.bids@) && identified_of(d.asks@, b.asks@),
            r matches Err(e) ==> if all_identified(d.bids@) {
                first_identified_error(d.asks@, e)
            } else {
                first_identified_error(d.bids@, e)
            },
    {
        let bids = match identified_side(&d.bids) {
            Ok(v) => v,
            Err(e) => {
                return Err(e);
            },
        };
        let asks = match identified_side(&d.asks) {
            Ok(v) => v,
            Err(e) => {
                return Err(e);
            },
        };
        Ok(OrderBook { bids, asks })
    }
}

} // verus!
