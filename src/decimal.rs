//! Exact decimal amounts: prices, sizes and volumes as written on the wire.
use vstd::prelude::*;
use crate::text::{
    all_digits, digit_value, digits_value, find_last, is_digit, is_numeral, last_index,
    lemma_last_index_absent, lemma_last_index_at, numeral_value,
};

verus! {

/// The number `mantissa / 10^scale`, kept exactly as the wire text gave it
/// (`"2.00"` has mantissa 200 and scale 2).
#[derive(Clone, Copy, Debug, PartialEq, Eq, Structural)]
pub struct Decimal {
    pub mantissa: i64,
    pub scale: u32,
}

/// The (mantissa, scale) that unsigned decimal text denotes: digits, with at
/// most one `.` that has digits on both sides.
pub open spec fn unsigned_decimal(b: Seq<char>) -> Option<(int, int)> {
    let k = last_index(b, '.');
    if k < 0 {
        if is_numeral(b) {
            Some((digits_value(b), 0))
        } else {
            None
        }
    } else {
        let whole = b.take(k);
        let frac = b.skip(k + 1);
        if is_numeral(whole) && is_numeral(frac) {
            Some((digits_value(whole + frac), frac.len() as int))
        } else {
            None
        }
    }
}

/// The (mantissa, scale) that decimal text denotes, with an optional
/// leading `-`.
pub open spec fn decimal_text_value(s: Seq<char>) -> Option<(int, int)> {
    if s.len() > 0 && s[0] == '-' {
        match unsigned_decimal(s.skip(1)) {
            Some((v, sc)) => Some((-v, sc)),
            None => None,
        }
    } else {
        unsigned_decimal(s)
    }
}

/// What `Decimal::parse` returns: the denoted value where the mantissa fits
/// in `i64` (its minimum excluded) and the scale in `u32`.
pub open spec fn parsed_decimal(s: Seq<char>) -> Option<Decimal> {
    match decimal_text_value(s) {
        Some((v, sc)) => if -i64::MAX <= v <= i64::MAX && sc <= u32::MAX {
            Some(Decimal { mantissa: v as i64, scale: sc as u32 })
        } else {
            None
        },
        None => None,
    }
}

/// Unsigned decimal text never denotes a negative number.
proof fn lemma_unsigned_decimal_nonneg(b: Seq<char>)
    ensures
        unsigned_decimal(b) matches Some((v, sc)) ==> v >= 0 && sc >= 0,
{
    crate::text::lemma_last_index(b, '.');
    crate::text::lemma_last_index(b, '.');
    let k = last_index(b, '.');
    if k < 0 {
        if is_numeral(b) {
            crate::text::lemma_digits_value_nonneg(b);
        }
    } else if is_numeral(b.take(k)) && is_numeral(b.skip(k + 1)) {
        let j = b.take(k) + b.skip(k + 1);
        assert forall|i: int| 0 <= i < j.len() implies crate::text::is_digit(#[trigger] j[i]) by {
            if i < k {
                assert(j[i] == b.take(k)[i]);
            } else {
                assert(j[i] == b.skip(k + 1)[i - k]);
            }
        }
        crate::text::lemma_digits_value_nonneg(j);
    }
}

/// The character of a decimal digit.
pub open spec fn digit_char(d: nat) -> char {
    ((d + 48) as u32) as char
}

/// The decimal digits of `n`, most significant first, without leading zeros
/// (`"0"` for zero).
pub open spec fn digits_of(n: nat) -> Seq<char>
    decreases n,
{
    if n < 10 {
        seq![digit_char(n)]
    } else {
        digits_of(n / 10).push(digit_char(n % 10))
    }
}

pub open spec fn zeros(k: nat) -> Seq<char> {
    Seq::new(k, |i: int| '0')
}

/// The digits of `n` with zeros in front, to at least `width` characters.
pub open spec fn padded(n: nat, width: nat) -> Seq<char> {
    let d = digits_of(n);
    if d.len() >= width {
        d
    } else {
        zeros((width - d.len()) as nat) + d
    }
}

/// How an amount of `n / 10^scale` is written: at least one digit before the
/// point, and exactly `scale` after it (no point when `scale` is 0).
pub open spec fn unsigned_text(n: nat, scale: nat) -> Seq<char> {
    let p = padded(n, scale + 1);
    if scale == 0 {
        p
    } else {
        p.take(p.len() - scale) + seq!['.'] + p.skip(p.len() - scale)
    }
}

/// How a decimal is written: `-` before a negative mantissa.
pub open spec fn decimal_text(d: Decimal) -> Seq<char> {
    if d.mantissa < 0 {
        seq!['-'] + unsigned_text((-d.mantissa) as nat, d.scale as nat)
    } else {
        unsigned_text(d.mantissa as nat, d.scale as nat)
    }
}

proof fn lemma_digits_of(n: nat)
    ensures
        digits_of(n).len() >= 1,
        all_digits(digits_of(n)),
        digits_value(digits_of(n)) == n,
    decreases n,
{
    if n < 10 {
        let s = digits_of(n);
        assert(s.drop_last() =~= Seq::<char>::empty());
        assert(digits_value(s.drop_last()) == 0);
        assert(s.last() == digit_char(n));
        assert(digit_value(digit_char(n)) == n);
    } else {
        lemma_digits_of(n / 10);
        let s = digits_of(n);
        assert(s.drop_last() =~= digits_of(n / 10));
        assert(digit_value(digit_char(n % 10)) == n % 10);
        assert(s.last() == digit_char(n % 10));
        assert((n / 10) * 10 + n % 10 == n);
        assert forall|i: int| 0 <= i < s.len() implies is_digit(#[trigger] s[i]) by {
            if i < s.len() - 1 {
                assert(s[i] == digits_of(n / 10)[i]);
            }
        }
    }
}

/// Leading zeros do not change the value of a run of digits.
proof fn lemma_leading_zeros(k: nat, q: Seq<char>)
    ensures
        digits_value(zeros(k) + q) == digits_value(q),
    decreases q.len() + k,
{
    if q.len() == 0 {
        assert(zeros(k) + q =~= zeros(k));
        if k > 0 {
            assert(zeros(k).drop_last() =~= zeros((k - 1) as nat));
            lemma_leading_zeros((k - 1) as nat, q);
            assert(zeros((k - 1) as nat) + q =~= zeros((k - 1) as nat));
        }
    } else {
        assert((zeros(k) + q).drop_last() =~= zeros(k) + q.drop_last());
        lemma_leading_zeros(k, q.drop_last());
    }
}

proof fn lemma_padded(n: nat, width: nat)
    ensures
        padded(n, width).len() >= width,
        padded(n, width).len() >= 1,
        all_digits(padded(n, width)),
        digits_value(padded(n, width)) == n,
{
    lemma_digits_of(n);
    let d = digits_of(n);
    if d.len() < width {
        let k = (width - d.len()) as nat;
        lemma_leading_zeros(k, d);
        let p = zeros(k) + d;
        assert forall|i: int| 0 <= i < p.len() implies is_digit(#[trigger] p[i]) by {
            if i >= k {
                assert(p[i] == d[i - k]);
            }
        }
    }
}

proof fn lemma_unsigned_text(n: nat, scale: nat)
    ensures
        unsigned_decimal(unsigned_text(n, scale)) == Some((n as int, scale as int)),
        unsigned_text(n, scale).len() > 0,
        is_digit(unsigned_text(n, scale)[0]),
{
    lemma_padded(n, scale + 1);
    let p = padded(n, scale + 1);
    let u = unsigned_text(n, scale);
    if scale == 0 {
        assert(!u.contains('.')) by {
            if u.contains('.') {
                let j = choose|j: int| 0 <= j < u.len() && u[j] == '.';
                assert(is_digit(u[j]));
            }
        }
        lemma_last_index_absent(u, '.');
    } else {
        let k = p.len() - scale;
        let whole = p.take(k);
        let frac = p.skip(k);
        assert forall|j: int| k < j < u.len() implies u[j] != '.' by {
            assert(u[j] == frac[j - k - 1]);
            assert(frac[j - k - 1] == p[j - 1]);
            assert(is_digit(p[j - 1]));
        }
        assert(u[k] == '.');
        lemma_last_index_at(u, '.', k);
        assert(u.take(k) =~= whole);
        assert(u.skip(k + 1) =~= frac);
        assert(whole + frac =~= p);
        assert(all_digits(whole)) by {
            assert forall|i: int| 0 <= i < whole.len() implies is_digit(#[trigger] whole[i]) by {
                assert(whole[i] == p[i]);
            }
        }
        assert(all_digits(frac)) by {
            assert forall|i: int| 0 <= i < frac.len() implies is_digit(#[trigger] frac[i]) by {
                assert(frac[i] == p[i + k]);
            }
        }
        assert(u[0] == p[0]);
    }
}

/// Reading back how a decimal is written gives the same decimal.
pub proof fn lemma_decimal_text_round_trip(d: Decimal)
    requires
        d.mantissa > i64::MIN,
    ensures
        parsed_decimal(decimal_text(d)) == Some(d),
{
    let s = decimal_text(d);
    if d.mantissa < 0 {
        let n = (-d.mantissa) as nat;
        lemma_unsigned_text(n, d.scale as nat);
        assert(s.skip(1) =~= unsigned_text(n, d.scale as nat));
    } else {
        lemma_unsigned_text(d.mantissa as nat, d.scale as nat);
    }
}

fn digit_str(d: u64) -> (r: &'static str)
    requires
        d < 10,
    ensures
        r@ =~= seq![digit_char(d as nat)],
{
    match d {
        0 => {
            proof {
                reveal_strlit("0");
            }
            "0"
        },
        1 => {
            proof {
                reveal_strlit("1");
            }
            "1"
        },
        2 => {
            proof {
                reveal_strlit("2");
            }
            "2"
        },
        3 => {
            proof {
                reveal_strlit("3");
            }
            "3"
        },
        4 => {
            proof {
                reveal_strlit("4");
            }
            "4"
        },
        5 => {
            proof {
                reveal_strlit("5");
            }
            "5"
        },
        6 => {
            proof {
                reveal_strlit("6");
            }
            "6"
        },
        7 => {
            proof {
                reveal_strlit("7");
            }
            "7"
        },
        8 => {
            proof {
                reveal_strlit("8");
            }
            "8"
        },
        _ => {
            proof {
                reveal_strlit("9");
            }
            "9"
        },
    }
}

fn push_digits(out: &mut String, n: u64)
    ensures
        final(out)@ == old(out)@ + digits_of(n as nat),
    decreases n,
{
    if n >= 10 {
        push_digits(out, n / 10);
    }
    out.append(digit_str(n % 10));
    proof {
        assert(out@ =~= old(out)@ + digits_of(n as nat));
    }
}

fn push_zeros(out: &mut String, k: usize)
    ensures
        final(out)@ == old(out)@ + zeros(k as nat),
{
    let mut i: usize = 0;
    while i < k
        invariant
            i <= k,
            out@ == old(out)@ + zeros(i as nat),
        decreases k - i,
    {
        out.append(digit_str(0));
        proof {
            assert(out@ =~= old(out)@ + zeros((i + 1) as nat));
        }
        i = i + 1;
    }
}

fn unsigned_to_text(n: u64, scale: u32) -> (r: String)
    ensures
        r@ == unsigned_text(n as nat, scale as nat),
{
    let mut digits = String::new();
    push_digits(&mut digits, n);
    proof {
        assert(digits@ =~= digits_of(n as nat));
    }
    let dl = digits.as_str().unicode_len();
    proof {
        lemma_digits_of(n as nat);
    }
    let mut p = String::new();
    if dl <= scale as usize {
        push_zeros(&mut p, scale as usize - dl + 1);
    }
    p.append(digits.as_str());
    proof {
        assert(p@ =~= padded(n as nat, scale as nat + 1));
    }
    if scale == 0 {
        return p;
    }
    proof {
        lemma_padded(n as nat, scale as nat + 1);
    }
    let l = p.as_str().unicode_len();
    let k = l - scale as usize;
    let whole = p.as_str().substring_char(0, k);
    let frac = p.as_str().substring_char(k, l);
    let point = ".";
    proof {
        reveal_strlit(".");
    }
    let r = String::from_str(whole).concat(point).concat(frac);
    proof {
        assert(r@ =~= unsigned_text(n as nat, scale as nat));
    }
    r
}

fn parse_unsigned(b: &str) -> (r: Option<(u64, u32)>)
    ensures
        unsigned_decimal(b@) matches Some((v, sc)) ==> v >= 0 && sc >= 0,
        match unsigned_decimal(b@) {
            Some((v, sc)) => if v <= u64::MAX && sc <= u32::MAX {
                r == Some((v as u64, sc as u32))
            } else {
                r is None
            },
            None => r is None,
        },
{
    proof {
        lemma_unsigned_decimal_nonneg(b@);
    }
    let n = b.unicode_len();
    match find_last(b, '.') {
        None => match numeral_value(b) {
            Some(v) => Some((v, 0)),
            None => None,
        },
        Some(k) => {
            proof {
                crate::text::lemma_last_index(b@, '.');
            }
            let whole = b.substring_char(0, k);
            let frac = b.substring_char(k + 1, n);
            if whole.unicode_len() == 0 || frac.unicode_len() == 0 {
                return None;
            }
            if frac.unicode_len() > u32::MAX as usize {
                return None;
            }
            let joined = String::from_str(whole).concat(frac);
            proof {
                assert(whole@ =~= b@.take(k as int));
                assert(frac@ =~= b@.skip(k + 1));
                let j = joined@;
                assert(crate::text::all_digits(j) == (crate::text::all_digits(whole@)
                    && crate::text::all_digits(frac@))) by {
                    if crate::text::all_digits(j) {
                        assert forall|i: int| 0 <= i < whole@.len() implies crate::text::is_digit(
                            #[trigger] whole@[i],
                        ) by {
                            assert(j[i] == whole@[i]);
                        }
                        assert forall|i: int| 0 <= i < frac@.len() implies crate::text::is_digit(
                            #[trigger] frac@[i],
                        ) by {
                            assert(j[i + whole@.len()] == frac@[i]);
                        }
                    }
                }
            }
            match numeral_value(joined.as_str()) {
                Some(v) => Some((v, frac.unicode_len() as u32)),
                None => None,
            }
        },
    }
}

impl Decimal {
    /// Writes the decimal as text: a `-` for a negative mantissa, at least
    /// one digit before the point and exactly `scale` digits after it.
    pub fn to_text(&self) -> (r: String)
        ensures
            r@ == decimal_text(*self),
    {
        if self.mantissa < 0 {
            let n: u64 = (-(self.mantissa + 1)) as u64 + 1;
            let u = unsigned_to_text(n, self.scale);
            let minus = "-";
            proof {
                reveal_strlit("-");
            }
            let r = String::from_str(minus).concat(u.as_str());
            proof {
                assert(r@ =~= decimal_text(*self));
            }
            r
        } else {
            unsigned_to_text(self.mantissa as u64, self.scale)
        }
    }

    /// Reads decimal text such as `"100.5"`, `"-0.01"` or `"3"`; `None` for
    /// anything else, and where the value does not fit.
    pub fn parse(s: &str) -> (r: Option<Decimal>)
        ensures
            r == parsed_decimal(s@),
    {
        let n = s.unicode_len();
        let negative = n > 0 && s.get_char(0) == '-';
        let body = if negative {
            s.substring_char(1, n)
        } else {
            s
        };
        proof {
            if negative {
                assert(body@ =~= s@.skip(1));
            }
        }
        match parse_unsigned(body) {
            Some((v, sc)) => {
                if v > i64::MAX as u64 {
                    None
                } else if negative {
                    Some(Decimal { mantissa: -(v as i64), scale: sc })
                } else {
                    Some(Decimal { mantissa: v as i64, scale: sc })
                }
            },
            None => {
                None
            },
        }
    }
}

} // verus!
