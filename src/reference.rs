//! Currencies and the session's reference set of them.
use vstd::prelude::*;
use crate::decimal::{decimal_text, lemma_decimal_text_round_trip, parsed_decimal, Decimal};
use crate::error::ValidationError;

verus! {

/// A currency the exchange lists; identified by its short code `id`.
#[derive(Debug, PartialEq, Eq)]
pub struct Currency {
    pub id: String,
    pub name: String,
    pub min_size: Decimal,
}

impl Clone for Currency {
    fn clone(&self) -> (r: Self)
        ensures
            r == *self,
    {
        Currency { id: self.id.clone(), name: self.name.clone(), min_size: self.min_size }
    }
}

/// The wire fields `(id, name, min_size)` that a currency is encoded as.
pub open spec fn encoded(c: Currency) -> (Seq<char>, Seq<char>, Seq<char>) {
    (c.id@, c.name@, decimal_text(c.min_size))
}

/// Decoding a currency record whose amount is written the way records are
/// encoded, then encoding the currency again, gives back the three fields
/// exactly.
pub proof fn lemma_currency_round_trip(id: String, name: String, min_size: Seq<char>, d: Decimal)
    requires
        min_size == decimal_text(d),
        d.mantissa > i64::MIN,
    ensures
        match parsed_decimal(min_size) {
            Some(m) => encoded(Currency { id: id, name: name, min_size: m }) == (id@, name@, min_size),
            None => false,
        },
{
    lemma_decimal_text_round_trip(d);
}

impl Currency {
    /// Encodes the currency as its wire fields `(id, name, min_size)`.
    pub fn to_wire(&self) -> (r: (String, String, String))
        ensures
            (r.0@, r.1@, r.2@) == encoded(*self),
    {
        (self.id.clone(), self.name.clone(), self.min_size.to_text())
    }

    /// Builds a currency from its wire fields; `min_size` must be decimal text.
    pub fn from_wire(id: String, name: String, min_size: &str) -> (r: Result<
        Currency,
        ValidationError,
    >)
        ensures
            match parsed_decimal(min_size@) {
                Some(d) => r == Ok::<Currency, ValidationError>(
                    Currency { id: id, name: name, min_size: d },
                ),
                None => r matches Err(ValidationError::BadDecimal(f)) && f@ == "min_size"@,
            },
    {
        match Decimal::parse(min_size) {
            Some(d) => Ok(Currency { id, name, min_size: d }),
            None => Err(ValidationError::BadDecimal(String::from_str("min_size"))),
        }
    }
}

/// The lookup table that a sequence of currencies denotes: each code maps to
/// the last currency in the sequence that carries it.
pub open spec fn currency_map(s: Seq<Currency>) -> Map<Seq<char>, Currency>
    decreases s.len(),
{
    if s.len() == 0 {
        Map::empty()
    } else {
        currency_map(s.drop_last()).insert(s.last().id@, s.last())
    }
}

/// The currencies known to the session (the reference set).
pub struct State {
    pub currencies: Vec<Currency>,
}

impl View for State {
    type V = Map<Seq<char>, Currency>;

    open spec fn view(&self) -> Map<Seq<char>, Currency> {
        currency_map(self.currencies@)
    }
}

/// No two entries share a code.
pub open spec fn unique_ids(s: Seq<Currency>) -> bool {
    forall|i: int, j: int| 0 <= i < s.len() && 0 <= j < s.len() && i != j ==> s[i].id@ != s[j].id@
}

/// Entries after position `i` that do not carry `k` leave the lookup of `k`
/// as the prefix up to `i` has it.
proof fn lemma_map_prefix(s: Seq<Currency>, i: int, k: Seq<char>)
    requires
        0 <= i <= s.len(),
        forall|j: int| i <= j < s.len() ==> (#[trigger] s[j]).id@ != k,
    ensures
        currency_map(s).contains_key(k) == currency_map(s.take(i)).contains_key(k),
        currency_map(s).contains_key(k) ==> currency_map(s)[k] == currency_map(s.take(i))[k],
    decreases s.len() - i,
{
    if i < s.len() {
        assert(s.drop_last().take(i) =~= s.take(i));
        lemma_map_prefix(s.drop_last(), i, k);
        assert(s.last() == s[s.len() - 1]);
    } else {
        assert(s.take(i) =~= s);
    }
}

/// Replacing the one entry that carries a code rebinds that code.
proof fn lemma_map_update(s: Seq<Currency>, j: int, c: Currency)
    requires
        0 <= j < s.len(),
        s[j].id@ == c.id@,
        forall|i: int| 0 <= i < s.len() && i != j ==> (#[trigger] s[i]).id@ != c.id@,
    ensures
        currency_map(s.update(j, c)) == currency_map(s).insert(c.id@, c),
    decreases s.len(),
{
    let u = s.update(j, c);
    if j == s.len() - 1 {
        assert(u.drop_last() =~= s.drop_last());
        assert(currency_map(u) =~= currency_map(s).insert(c.id@, c));
    } else {
        assert(u.drop_last() =~= s.drop_last().update(j, c));
        lemma_map_update(s.drop_last(), j, c);
        assert(u.last() == s.last());
        assert(s.last() == s[s.len() - 1]);
        assert(currency_map(u) =~= currency_map(s).insert(c.id@, c));
    }
}

/// Every code in the table is the code of the currency it maps to.
pub proof fn lemma_map_keys(s: Seq<Currency>, k: Seq<char>)
    requires
        currency_map(s).contains_key(k),
    ensures
        currency_map(s)[k].id@ == k,
    decreases s.len(),
{
    if s.len() > 0 && s.last().id@ != k {
        lemma_map_keys(s.drop_last(), k);
    }
}

/// Two currencies under one code make one entry, and the later one is kept.
pub proof fn lemma_duplicate_code_last_wins(first: Currency, second: Currency)
    requires
        first.id@ == second.id@,
    ensures
        currency_map(seq![first, second]) == map![second.id@ => second],
{
    let s = seq![first, second];
    assert(s.drop_last() =~= seq![first]);
    assert(seq![first].drop_last() =~= Seq::<Currency>::empty());
    assert(s.last() == second);
    assert(seq![first].last() == first);
    assert(currency_map(seq![first].drop_last()) == Map::<Seq<char>, Currency>::empty());
    assert(currency_map(seq![first]) == Map::<Seq<char>, Currency>::empty().insert(first.id@, first));
    assert(currency_map(s) == currency_map(seq![first]).insert(second.id@, second));
    assert(currency_map(s) =~= map![second.id@ => second]);
}

impl State {
    /// Every code appears once.
    pub open spec fn wf(&self) -> bool {
        unique_ids(self.currencies@)
    }

    /// Builds the reference set from a currencies fetch. Where several
    /// entries share a code, the last one wins; the set keeps one entry per
    /// code.
    pub fn new(currencies: Vec<Currency>) -> (r: State)
        ensures
            r.wf(),
            r@ == currency_map(currencies@),
    {
        let mut kept: Vec<Currency> = Vec::new();
        let n = currencies.len();
        let mut i: usize = 0;
        while i < n
            invariant
                n == currencies@.len(),
                i <= n,
                unique_ids(kept@),
                currency_map(kept@) == currency_map(currencies@.take(i as int)),
            decreases n - i,
        {
            let c = currencies[i].clone();
            proof {
                let p = currencies@.take(i + 1);
                assert(p.drop_last() =~= currencies@.take(i as int));
                assert(p.last() == c);
            }
            let mut j: usize = 0;
            let mut at: Option<usize> = None;
            while j < kept.len()
                invariant
                    j <= kept@.len(),
                    match at {
                        Some(a) => a < kept@.len() && kept@[a as int].id@ == c.id@,
                        None => forall|x: int| 0 <= x < j ==> (#[trigger] kept@[x]).id@ != c.id@,
                    },
                decreases kept@.len() - j,
            {
                if kept[j].id == c.id {
                    at = Some(j);
                }
                j = j + 1;
            }
            let ghost before = kept@;
            match at {
                Some(a) => {
                    proof {
                        assert forall|x: int| 0 <= x < before.len() && x != a implies (
                        #[trigger] before[x]).id@ != c.id@ by {
                            assert(before[a as int].id@ == c.id@);
                        }
                        lemma_map_update(before, a as int, c);
                    }
                    kept.set(a, c);
                    proof {
                        assert forall|x: int, y: int|
                            0 <= x < kept@.len() && 0 <= y < kept@.len() && x != y implies
                            kept@[x].id@ != kept@[y].id@ by {
                            if x != a && y != a {
                                assert(before[x] == kept@[x] && before[y] == kept@[y]);
                            }
                        }
                    }
                },
                None => {
                    kept.push(c);
                    proof {
                        assert(kept@.drop_last() =~= before);
                        assert forall|x: int, y: int|
                            0 <= x < kept@.len() && 0 <= y < kept@.len() && x != y implies
                            kept@[x].id@ != kept@[y].id@ by {
                            if x < before.len() && y < before.len() {
                                assert(before[x] == kept@[x] && before[y] == kept@[y]);
                            }
                        }
                    }
                },
            }
            i = i + 1;
        }
        proof {
            assert(currencies@.take(n as int) =~= currencies@);
        }
        State { currencies: kept }
    }

    /// Exact, case-sensitive lookup of a currency code.
    pub fn get_curr(&self, key: &str) -> (r: Option<&Currency>)
        ensures
            match r {
                Some(c) => self@.contains_key(key@) && *c == self@[key@],
                None => !self@.contains_key(key@),
            },
    {
        let k = String::from_str(key);
        let mut i: usize = self.currencies.len();
        while i > 0
            invariant
                i <= self.currencies@.len(),
                k@ == key@,
                forall|j: int| i <= j < self.currencies@.len() ==> (
                #[trigger] self.currencies@[j]).id@ != key@,
            decreases i,
        {
            if self.currencies[i - 1].id == k {
                proof {
                    let s = self.currencies@;
                    lemma_map_prefix(s, i as int, key@);
                    assert(s.take(i as int).drop_last() =~= s.take(i - 1));
                    assert(s.take(i as int).last() == s[i - 1]);
                }
                return Some(&self.currencies[i - 1]);
            }
            i = i - 1;
        }
        proof {
            lemma_map_prefix(self.currencies@, 0, key@);
            assert(self.currencies@.take(0) =~= Seq::<Currency>::empty());
        }
        None
    }
}

} // verus!
