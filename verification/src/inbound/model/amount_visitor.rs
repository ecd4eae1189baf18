use vstd::prelude::*;

use crate::inbound::model::decimal::{
    all_digits, amount_fits, char_width, digit_value, digits_value, is_digit, is_whitespace,
    lemma_split_at_dot, pad4, parse_amount_value, parse_parts, parse_u64, split_at_dot, trim,
    trim_end, trim_start, utf8_width, without_plus, AmountError,
};
use crate::model::Amount;

verus! {

/// Reads amounts from their decimal text: whole units, optionally a '.' and
/// up to four decimals, with surrounding whitespace ignored.
pub struct AmountVisitor;

impl AmountVisitor {
    /// Reads an amount from its text: `Ok` with the amount it writes, or
    /// the error that says why the text is not an amount.
    pub fn visit_str(&self, v: &str) -> (r: Result<Amount, AmountError>)
        requires
            amount_fits(v@),
        ensures
            match parse_amount_value(v@) {
                Ok(x) => r == Ok::<Amount, AmountError>(Amount(x as u64)),
                Err(e) => r == Err::<Amount, AmountError>(e),
            },
    {
        match parse_text_parts(v) {
            Ok((units, fraction)) => {
                let total: u128 = (units as u128) * 10000 + (fraction as u128);
                Ok(Amount(total as u64))
            },
            Err(e) => Err(e),
        }
    }

    /// Whether `visit_str` may be called on the text: the text is not an
    /// amount, or the amount it writes fits in `u64`.
    pub fn fits(&self, v: &str) -> (b: bool)
        ensures
            b == amount_fits(v@),
    {
        match parse_text_parts(v) {
            Ok((units, fraction)) => {
                let total: u128 = (units as u128) * 10000 + (fraction as u128);
                total <= (u64::MAX as u128)
            },
            Err(_) => true,
        }
    }
}

/// The two parts of an amount's text, or why it is not one.
fn parse_text_parts(v: &str) -> (r: Result<(u64, u64), AmountError>)
    ensures
        r == parse_parts(v@),
{
    let cs = chars_of(v);
    let (lo, hi) = trim_bounds(&cs);
    let ghost t = cs@.subrange(lo as int, hi as int);
    let dot = find_dot(&cs, lo, hi);
    proof {
        lemma_split_at_dot(t, dot - lo);
        assert(t.take(dot - lo) =~= cs@.subrange(lo as int, dot as int));
        if dot < hi {
            assert(t.skip(dot - lo + 1) =~= cs@.subrange(dot + 1, hi as int));
        }
    }
    let dec_start = if dot < hi { dot + 1 } else { hi };
    proof {
        if dot == hi {
            assert(cs@.subrange(hi as int, hi as int) =~= Seq::<char>::empty());
            assert(t =~= cs@.subrange(lo as int, dot as int));
        }
    }
    if width_exceeds_four(&cs, dec_start, hi) {
        return Err(AmountError::TooManyDecimalPlaces);
    }
    let units = match parse_u64_range(&cs, lo, dot) {
        Some(u) => u,
        None => {
            return Err(AmountError::InvalidIntegerPart);
        },
    };
    let padded = pad_to_four(&cs, dec_start, hi);
    proof {
        assert(padded@.subrange(0, padded@.len() as int) =~= padded@);
    }
    let fraction = match parse_u64_range(&padded, 0, padded.len()) {
        Some(f) => f,
        None => {
            return Err(AmountError::InvalidDecimalPart);
        },
    };
    Ok((units, fraction))
}

/// The characters of the text.
fn chars_of(v: &str) -> (cs: Vec<char>)
    ensures
        cs@ == v@,
{
    let mut cs: Vec<char> = Vec::new();
    for c in it: v.chars()
        invariant
            cs@ == it.seq().take(it.index() as int),
    {
        cs.push(c);
    }
    cs
}

/// `char::is_whitespace`, on the code points of Unicode White_Space.
fn is_whitespace_exec(c: char) -> (b: bool)
    ensures
        b == is_whitespace(c),
{
    let u = c as u32;
    (0x09 <= u && u <= 0x0d) || u == 0x20 || u == 0x85 || u == 0xa0 || u == 0x1680 || (0x2000
        <= u && u <= 0x200a) || u == 0x2028 || u == 0x2029 || u == 0x202f || u == 0x205f || u
        == 0x3000
}

proof fn lemma_trim_start_skip(s: Seq<char>, k: int)
    requires
        0 <= k <= s.len(),
        forall|i: int| 0 <= i < k ==> is_whitespace(#[trigger] s[i]),
    ensures
        trim_start(s) == trim_start(s.skip(k)),
    decreases k,
{
    if k > 0 {
        assert(s.skip(1) =~= s.drop_first());
        lemma_trim_start_skip(s.drop_first(), k - 1);
        assert(s.drop_first().skip(k - 1) =~= s.skip(k));
    } else {
        assert(s.skip(0) =~= s);
    }
}

proof fn lemma_trim_end_take(s: Seq<char>, k: int)
    requires
        0 <= k <= s.len(),
        forall|i: int| k <= i < s.len() ==> is_whitespace(#[trigger] s[i]),
    ensures
        trim_end(s) == trim_end(s.take(k)),
    decreases s.len() - k,
{
    if k < s.len() {
        lemma_trim_end_take(s.drop_last(), k);
        assert(s.drop_last().take(k) =~= s.take(k));
    } else {
        assert(s.take(k) =~= s);
    }
}

/// Where the text starts and ends once its surrounding whitespace is cut.
fn trim_bounds(cs: &Vec<char>) -> (r: (usize, usize))
    ensures
        r.0 <= r.1 <= cs@.len(),
        trim(cs@) == cs@.subrange(r.0 as int, r.1 as int),
{
    let len = cs.len();
    let mut lo: usize = 0;
    while lo < len && is_whitespace_exec(cs[lo])
        invariant
            len == cs@.len(),
            lo <= len,
            forall|i: int| 0 <= i < lo ==> is_whitespace(#[trigger] cs@[i]),
        decreases len - lo,
    {
        lo = lo + 1;
    }
    let ghost rest = cs@.skip(lo as int);
    proof {
        lemma_trim_start_skip(cs@, lo as int);
        if rest.len() > 0 {
            assert(rest[0] == cs@[lo as int]);
        }
        assert(trim_start(rest) == rest);
    }
    let mut hi: usize = len;
    while hi > lo && is_whitespace_exec(cs[hi - 1])
        invariant
            len == cs@.len(),
            lo <= hi <= len,
            rest == cs@.skip(lo as int),
            forall|i: int| hi <= i < len ==> is_whitespace(#[trigger] cs@[i]),
        decreases hi,
    {
        hi = hi - 1;
    }
    proof {
        assert forall|i: int| hi - lo <= i < rest.len() implies is_whitespace(#[trigger] rest[i]) by {
            assert(rest[i] == cs@[lo + i]);
        }
        lemma_trim_end_take(rest, hi - lo);
        let kept = rest.take(hi - lo);
        assert(kept =~= cs@.subrange(lo as int, hi as int));
        if kept.len() > 0 {
            assert(kept.last() == cs@[hi - 1]);
        }
        assert(trim_end(kept) == kept);
    }
    (lo, hi)
}

/// The position of the first '.' in `cs[lo..hi]`, or `hi` when there is none.
fn find_dot(cs: &Vec<char>, lo: usize, hi: usize) -> (r: usize)
    requires
        lo <= hi <= cs@.len(),
    ensures
        lo <= r <= hi,
        forall|j: int| lo <= j < r ==> #[trigger] cs@[j] != '.',
        r < hi ==> cs@[r as int] == '.',
{
    let mut i = lo;
    while i < hi && cs[i] != '.'
        invariant
            lo <= i <= hi <= cs@.len(),
            forall|j: int| lo <= j < i ==> #[trigger] cs@[j] != '.',
        decreases hi - i,
    {
        i = i + 1;
    }
    i
}

/// `char_width`, computed.
fn char_width_exec(c: char) -> (w: usize)
    ensures
        w == char_width(c),
{
    let u = c as u32;
    if u < 0x80 {
        1
    } else if u < 0x800 {
        2
    } else if u < 0x10000 {
        3
    } else {
        4
    }
}

proof fn lemma_utf8_width_prefix(s: Seq<char>, k: int)
    requires
        0 <= k <= s.len(),
    ensures
        utf8_width(s.take(k)) <= utf8_width(s),
    decreases s.len(),
{
    if k == s.len() {
        assert(s.take(k) =~= s);
    } else {
        lemma_utf8_width_prefix(s.drop_last(), k);
        assert(s.drop_last().take(k) =~= s.take(k));
    }
}

/// Whether `cs[a..b]` takes more than four bytes in UTF-8.
fn width_exceeds_four(cs: &Vec<char>, a: usize, b: usize) -> (r: bool)
    requires
        a <= b <= cs@.len(),
    ensures
        r == (utf8_width(cs@.subrange(a as int, b as int)) > 4),
{
    let mut w: usize = 0;
    let mut i = a;
    proof {
        assert(cs@.subrange(a as int, a as int) =~= Seq::<char>::empty());
    }
    while i < b
        invariant
            a <= i <= b <= cs@.len(),
            w == utf8_width(cs@.subrange(a as int, i as int)),
            w <= 4,
        decreases b - i,
    {
        w = w + char_width_exec(cs[i]);
        proof {
            assert(cs@.subrange(a as int, i + 1).drop_last() =~= cs@.subrange(a as int, i as int));
        }
        i = i + 1;
        if w > 4 {
            proof {
                let s = cs@.subrange(a as int, b as int);
                lemma_utf8_width_prefix(s, i - a);
                assert(s.take(i - a) =~= cs@.subrange(a as int, i as int));
            }
            return true;
        }
    }
    false
}

proof fn lemma_width_at_least_len(s: Seq<char>)
    ensures
        s.len() <= utf8_width(s),
    decreases s.len(),
{
    if s.len() > 0 {
        lemma_width_at_least_len(s.drop_last());
    }
}

/// `cs[a..b]` padded on the right with '0' to four characters.
fn pad_to_four(cs: &Vec<char>, a: usize, b: usize) -> (p: Vec<char>)
    requires
        a <= b <= cs@.len(),
        utf8_width(cs@.subrange(a as int, b as int)) <= 4,
    ensures
        p@ == pad4(cs@.subrange(a as int, b as int)),
{
    proof {
        lemma_width_at_least_len(cs@.subrange(a as int, b as int));
    }
    let mut p: Vec<char> = Vec::new();
    let mut i = a;
    while i < b
        invariant
            a <= i <= b <= cs@.len(),
            b - a <= 4,
            p@ == cs@.subrange(a as int, i as int),
        decreases b - i,
    {
        p.push(cs[i]);
        i = i + 1;
    }
    let ghost s = cs@.subrange(a as int, b as int);
    while p.len() < 4
        invariant
            s.len() <= p@.len() <= 4 || (s.len() == p@.len() && s.len() >= 4),
            p@.take(s.len() as int) == s,
            forall|j: int| s.len() <= j < p@.len() ==> #[trigger] p@[j] == '0',
        decreases 4 - p@.len(),
    {
        p.push('0');
    }
    proof {
        assert(p@ =~= pad4(s));
    }
    p
}

proof fn lemma_digits_value_prefix(s: Seq<char>, k: int)
    requires
        all_digits(s),
        0 <= k <= s.len(),
    ensures
        digits_value(s.take(k)) <= digits_value(s),
    decreases s.len(),
{
    if k == s.len() {
        assert(s.take(k) =~= s);
    } else {
        let t = s.drop_last();
        assert(all_digits(t)) by {
            assert forall|i: int| 0 <= i < t.len() implies #[trigger] is_digit(t[i]) by {
                assert(is_digit(s[i]));
            }
        }
        lemma_digits_value_prefix(t, k);
        assert(t.take(k) =~= s.take(k));
        assert(is_digit(s[s.len() - 1]));
    }
}

/// What std's `u64::from_str` reads from `cs[a..b]`.
fn parse_u64_range(cs: &Vec<char>, a: usize, b: usize) -> (r: Option<u64>)
    requires
        a <= b <= cs@.len(),
    ensures
        r == parse_u64(cs@.subrange(a as int, b as int)),
{
    let ghost s = cs@.subrange(a as int, b as int);
    let mut i = a;
    if i < b && cs[i] == '+' {
        i = i + 1;
    }
    let ghost d = cs@.subrange(i as int, b as int);
    proof {
        if a < b && cs@[a as int] == '+' {
            assert(s.drop_first() =~= d);
        } else {
            assert(s =~= d);
        }
        assert(without_plus(s) == d);
    }
    if i == b {
        return None;
    }
    let start = i;
    let mut value: u64 = 0;
    proof {
        assert(cs@.subrange(start as int, start as int) =~= Seq::<char>::empty());
    }
    while i < b
        invariant
            a <= start <= i <= b <= cs@.len(),
            d == cs@.subrange(start as int, b as int),
            s == cs@.subrange(a as int, b as int),
            without_plus(s) == d,
            d.len() > 0,
            forall|j: int| start <= j < i ==> #[trigger] is_digit(cs@[j]),
            value == digits_value(cs@.subrange(start as int, i as int)),
        decreases b - i,
    {
        let c = cs[i];
        if !('0' <= c && c <= '9') {
            proof {
                assert(d[i - start] == c);
                assert(!is_digit(d[i - start]));
            }
            return None;
        }
        let digit = (c as u32 - '0' as u32) as u64;
        let ghost prefix = cs@.subrange(start as int, i + 1);
        proof {
            assert(prefix.drop_last() =~= cs@.subrange(start as int, i as int));
            assert(prefix.last() == c);
            assert(digit_value(c) == digit as int);
            assert(digits_value(prefix) == value * 10 + digit);
        }
        match value.checked_mul(10) {
            Some(tens) => match tens.checked_add(digit) {
                Some(next) => {
                    value = next;
                },
                None => {
                    proof {
                        assert(d.take(i + 1 - start) =~= prefix);
                        lemma_overflowed_prefix(d, i + 1 - start);
                    }
                    return None;
                },
            },
            None => {
                proof {
                    assert(d.take(i + 1 - start) =~= prefix);
                    lemma_overflowed_prefix(d, i + 1 - start);
                }
                return None;
            },
        }
        i = i + 1;
    }
    proof {
        assert(cs@.subrange(start as int, i as int) =~= d);
        assert forall|j: int| 0 <= j < d.len() implies #[trigger] is_digit(d[j]) by {
            assert(d[j] == cs@[start + j]);
        }
    }
    Some(value)
}

/// A run whose prefix already exceeds `u64` is not a `u64`.
proof fn lemma_overflowed_prefix(d: Seq<char>, k: int)
    requires
        0 < k <= d.len(),
        digits_value(d.take(k)) > u64::MAX,
    ensures
        !(all_digits(d) && digits_value(d) <= u64::MAX),
{
    if all_digits(d) {
        lemma_digits_value_prefix(d, k);
    }
}

} // verus!
