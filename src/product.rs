//! Products: currency pairs resolved against the reference set.
use vstd::prelude::*;
use crate::decimal::{parsed_decimal, Decimal};
use crate::error::ValidationError;
use crate::reference::{lemma_map_keys, Currency, State};
use crate::text::{find_last, last_index, lemma_last_index, lemma_last_index_absent, lemma_last_index_at};

verus! {

/// The (base, quote) codes of a product id: exactly two non-empty codes
/// joined by a single `-`.
pub open spec fn product_codes(id: Seq<char>) -> Option<(Seq<char>, Seq<char>)> {
    let k = last_index(id, '-');
    if 0 < k && k < id.len() - 1 && last_index(id.take(k), '-') == -1 {
        Some((id.take(k), id.skip(k + 1)))
    } else {
        None
    }
}

/// The code that resolution reports as unknown: the base before the quote.
pub open spec fn unknown_code(m: Map<Seq<char>, Currency>, base: Seq<char>, quote: Seq<char>) -> Option<Seq<char>> {
    if !m.contains_key(base) {
        Some(base)
    } else if !m.contains_key(quote) {
        Some(quote)
    } else {
        None
    }
}

/// A product as the API sends it: the pair as one `"BASE-QUOTE"` string and
/// the amounts as decimal text.
#[derive(Debug, Clone)]
pub struct DummyProduct {
    pub id: String,
    pub base_currency: String,
    pub quote_currency: String,
    pub base_min_size: String,
    pub base_max_size: String,
    pub quote_increment: String,
}

/// A product whose currencies are known to the session.
#[derive(Debug, PartialEq)]
pub struct Product {
    /// The (base, quote) codes, in that order.
    pub id: (String, String),
    pub base_currency: Currency,
    pub quote_currency: Currency,
    pub base_min_size: Decimal,
    pub base_max_size: Decimal,
    pub quote_increment: Decimal,
}

/// Joining two codes that hold no `-` gives an id that splits back into them.
pub proof fn lemma_codes_of_joined(a: Seq<char>, b: Seq<char>)
    requires
        a.len() > 0,
        b.len() > 0,
        !a.contains('-'),
        !b.contains('-'),
    ensures
        product_codes(a + seq!['-'] + b) == Some((a, b)),
{
    let id = a + seq!['-'] + b;
    let k = a.len() as int;
    assert forall|j: int| k < j < id.len() implies id[j] != '-' by {
        assert(id[j] == b[j - k - 1]);
    }
    lemma_last_index_at(id, '-', k);
    assert(id.take(k) =~= a);
    assert(id.skip(k + 1) =~= b);
    lemma_last_index_absent(a, '-');
}

/// Resolving `"A-B"` where both codes are known yields the pair `(A, B)` in
/// that order, with the currencies the reference set holds for them.
pub proof fn lemma_known_codes_resolve(state: State, a: Seq<char>, b: Seq<char>)
    requires
        a.len() > 0,
        b.len() > 0,
        !a.contains('-'),
        !b.contains('-'),
        state@.contains_key(a),
        state@.contains_key(b),
    ensures
        product_codes(a + seq!['-'] + b) == Some((a, b)),
        unknown_code(state@, a, b) is None,
        state@[a].id@ == a,
        state@[b].id@ == b,
{
    lemma_codes_of_joined(a, b);
    lemma_map_keys(state.currencies@, a);
    lemma_map_keys(state.currencies@, b);
}

/// Resolving `"A-B"` where `A` is unknown reports `A`, whatever `B` is.
pub proof fn lemma_unknown_base_reported(state: State, a: Seq<char>, b: Seq<char>)
    requires
        a.len() > 0,
        b.len() > 0,
        !a.contains('-'),
        !b.contains('-'),
        !state@.contains_key(a),
    ensures
        product_codes(a + seq!['-'] + b) == Some((a, b)),
        unknown_code(state@, a, b) == Some(a),
{
    lemma_codes_of_joined(a, b);
}

/// An id with no `-`, or with two or more, is malformed: it never reaches a
/// currency lookup.
pub proof fn lemma_malformed_ids(id: Seq<char>)
    ensures
        !id.contains('-') ==> product_codes(id) is None,
        forall|i: int, j: int|
            0 <= i < j < id.len() && id[i] == '-' && id[j] == '-' ==> product_codes(id) is None,
{
    lemma_last_index(id, '-');
    if !id.contains('-') {
        lemma_last_index_absent(id, '-');
    }
    assert forall|i: int, j: int|
        0 <= i < j < id.len() && id[i] == '-' && id[j] == '-' implies product_codes(id) is None by {
        let k = last_index(id, '-');
        if 0 < k && k < id.len() - 1 {
            assert(k >= j);
            lemma_last_index(id.take(k), '-');
            assert(id.take(k)[i] == '-');
        }
    }
}

impl Product {
    /// Splits a `"BASE-QUOTE"` id into its two codes.
    pub fn split_id(id: &str) -> (r: Option<(String, String)>)
        ensures
            match product_codes(id@) {
                Some((b, q)) => r matches Some((rb, rq)) && rb@ == b && rq@ == q,
                None => r is None,
            },
    {
        let n = id.unicode_len();
        match find_last(id, '-') {
            None => None,
            Some(k) => {
                proof {
                    lemma_last_index(id@, '-');
                }
                if k == 0 || k + 1 >= n {
                    return None;
                }
                let base = id.substring_char(0, k);
                let quote = id.substring_char(k + 1, n);
                proof {
                    assert(base@ =~= id@.take(k as int));
                    assert(quote@ =~= id@.skip(k + 1));
                }
                match find_last(base, '-') {
                    Some(_) => None,
                    None => Some((String::from_str(base), String::from_str(quote))),
                }
            },
        }
    }

    /// Looks a code up in the reference set; an unknown code is reported.
    pub fn get_curr(state: &State, key: &str) -> (r: Result<Currency, ValidationError>)
        ensures
            state@.contains_key(key@) ==> r == Ok::<Currency, ValidationError>(state@[key@]),
            !state@.contains_key(key@) ==> (r matches Err(ValidationError::BadCurrency(t)) && t@
                == key@),
    {
        match state.get_curr(key) {
            Some(c) => Ok(c.clone()),
            None => Err(ValidationError::BadCurrency(String::from_str(key))),
        }
    }

    /// Resolves a wire product: splits the id, looks both codes up (base
    /// first) and reads the three amounts (in field order).
    pub fn from_dummy(state: &State, p: DummyProduct) -> (r: Result<Product, ValidationError>)
        ensures
            match product_codes(p.id@) {
                None => r matches Err(ValidationError::MalformedId(t)) && t@ == p.id@,
                Some((b, q)) => match unknown_code(state@, b, q) {
                    Some(t) => r matches Err(ValidationError::BadCurrency(e)) && e@ == t,
                    None => if parsed_decimal(p.base_min_size@) is None {
                        r matches Err(ValidationError::BadDecimal(f)) && f@ == "base_min_size"@
                    } else if parsed_decimal(p.base_max_size@) is None {
                        r matches Err(ValidationError::BadDecimal(f)) && f@ == "base_max_size"@
                    } else if parsed_decimal(p.quote_increment@) is None {
                        r matches Err(ValidationError::BadDecimal(f)) && f@ == "quote_increment"@
                    } else {
                        r matches Ok(pr) && pr.id.0@ == b && pr.id.1@ == q && pr.base_currency
                            == state@[b] && pr.quote_currency == state@[q] && Some(
                            pr.base_min_size,
                        ) == parsed_decimal(p.base_min_size@) && Some(pr.base_max_size)
                            == parsed_decimal(p.base_max_size@) && Some(pr.quote_increment)
                            == parsed_decimal(p.quote_increment@)
                    },
                },
            },
    {
        let (b, q) = match Product::split_id(p.id.as_str()) {
            Some(pair) => pair,
            None => {
                return Err(ValidationError::MalformedId(p.id));
            },
        };
        let base = match Product::get_curr(state, b.as_str()) {
            Ok(c) => c,
            Err(e) => {
                return Err(e);
            },
        };
        let quote = match Product::get_curr(state, q.as_str()) {
            Ok(c) => c,
            Err(e) => {
                return Err(e);
            },
        };
        let base_min_size = match Decimal::parse(p.base_min_size.as_str()) {
            Some(d) => d,
            None => {
                return Err(ValidationError::BadDecimal(String::from_str("base_min_size")));
            },
        };
        let base_max_size = match Decimal::parse(p.base_max_size.as_str()) {
            Some(d) => d,
            None => {
                return Err(ValidationError::BadDecimal(String::from_str("base_max_size")));
            },
        };
        let quote_increment = match Decimal::parse(p.quote_increment.as_str()) {
            Some(d) => d,
            None => {
                return Err(ValidationError::BadDecimal(String::from_str("quote_increment")));
            },
        };
        Ok(Product {
            id: (b, q),
            base_currency: base,
            quote_currency: quote,
            base_min_size,
            base_max_size,
            quote_increment,
        })
    }
}

} // verus!
