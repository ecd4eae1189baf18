use vstd::prelude::*;

verus! {

/// Why a text is not an amount.
#[derive(PartialEq, Eq, Structural, Clone, Copy, Debug)]
pub enum AmountError {
    /// The part after the first '.' is more than four bytes long.
    TooManyDecimalPlaces,
    /// The part before the first '.' is not a `u64` as std's `u64::from_str` reads it.
    InvalidIntegerPart,
    /// The part after the first '.', padded on the right with '0' to four
    /// characters, is not a `u64` as std's `u64::from_str` reads it.
    InvalidDecimalPart,
}

/// Unicode White_Space, as `char::is_whitespace` tests it.
pub open spec fn is_whitespace(c: char) -> bool {
    let u = c as int;
    ||| 0x09 <= u <= 0x0d
    ||| u == 0x20
    ||| u == 0x85
    ||| u == 0xa0
    ||| u == 0x1680
    ||| 0x2000 <= u <= 0x200a
    ||| u == 0x2028
    ||| u == 0x2029
    ||| u == 0x202f
    ||| u == 0x205f
    ||| u == 0x3000
}

/// The text without its leading whitespace.
pub open spec fn trim_start(s: Seq<char>) -> Seq<char>
    decreases s.len(),
{
    if s.len() > 0 && is_whitespace(s[0]) {
        trim_start(s.drop_first())
    } else {
        s
    }
}

/// The text without its trailing whitespace.
pub open spec fn trim_end(s: Seq<char>) -> Seq<char>
    decreases s.len(),
{
    if s.len() > 0 && is_whitespace(s.last()) {
        trim_end(s.drop_last())
    } else {
        s
    }
}

/// The text without leading and trailing whitespace, as `str::trim` gives it.
pub open spec fn trim(s: Seq<char>) -> Seq<char> {
    trim_end(trim_start(s))
}

/// The text before and after the first '.', or the whole text and nothing
/// when it holds no '.'.
pub open spec fn split_at_dot(s: Seq<char>) -> (Seq<char>, Seq<char>)
    decreases s.len(),
{
    if s.len() == 0 {
        (s, Seq::empty())
    } else if s[0] == '.' {
        (Seq::empty(), s.drop_first())
    } else {
        let (before, after) = split_at_dot(s.drop_first());
        (seq![s[0]] + before, after)
    }
}

/// The number of bytes that the character takes in UTF-8.
pub open spec fn char_width(c: char) -> nat {
    let u = c as int;
    if u < 0x80 {
        1
    } else if u < 0x800 {
        2
    } else if u < 0x10000 {
        3
    } else {
        4
    }
}

/// The number of bytes that the text takes in UTF-8.
pub open spec fn utf8_width(s: Seq<char>) -> nat
    decreases s.len(),
{
    if s.len() == 0 {
        0
    } else {
        utf8_width(s.drop_last()) + char_width(s.last())
    }
}

/// An ASCII decimal digit.
pub open spec fn is_digit(c: char) -> bool {
    '0' <= c <= '9'
}

/// The value of a digit character.
pub open spec fn digit_value(c: char) -> int {
    (c as int) - ('0' as int)
}

/// Every character is a digit.
pub open spec fn all_digits(s: Seq<char>) -> bool {
    forall|i: int| 0 <= i < s.len() ==> #[trigger] is_digit(s[i])
}

/// The number that a run of digits writes in base ten.
pub open spec fn digits_value(s: Seq<char>) -> nat
    decreases s.len(),
{
    if s.len() == 0 {
        0
    } else {
        (digits_value(s.drop_last()) * 10 + digit_value(s.last())) as nat
    }
}

/// The text without one leading '+', if it has one.
pub open spec fn without_plus(s: Seq<char>) -> Seq<char> {
    if s.len() > 0 && s[0] == '+' {
        s.drop_first()
    } else {
        s
    }
}

/// What std's `u64::from_str` reads from the text: an optional '+' and then
/// one or more digits whose value fits in `u64`; `None` for anything else.
pub open spec fn parse_u64(s: Seq<char>) -> Option<u64> {
    let d = without_plus(s);
    if d.len() > 0 && all_digits(d) && digits_value(d) <= u64::MAX {
        Some(digits_value(d) as u64)
    } else {
        None
    }
}

/// The text padded on the right with '0' to four characters, as
/// `format!("{:0<4}", ..)` gives it.
pub open spec fn pad4(s: Seq<char>) -> Seq<char> {
    if s.len() < 4 {
        s + Seq::new((4 - s.len()) as nat, |i: int| '0')
    } else {
        s
    }
}

/// The two parts of an amount's text: the whole units and the
/// ten-thousandths, or why the text is not an amount.
pub open spec fn parse_parts(s: Seq<char>) -> Result<(u64, u64), AmountError> {
    let t = trim(s);
    let (int_part, dec_part) = split_at_dot(t);
    if utf8_width(dec_part) > 4 {
        Err(AmountError::TooManyDecimalPlaces)
    } else {
        match parse_u64(int_part) {
            None => Err(AmountError::InvalidIntegerPart),
            Some(units) => match parse_u64(pad4(dec_part)) {
                None => Err(AmountError::InvalidDecimalPart),
                Some(fraction) => Ok((units, fraction)),
            },
        }
    }
}

/// The amount, in ten-thousandths, that the text writes (possibly beyond
/// `u64`), or why the text is not an amount.
pub open spec fn parse_amount_value(s: Seq<char>) -> Result<int, AmountError> {
    match parse_parts(s) {
        Ok((units, fraction)) => Ok(units * 10000 + fraction),
        Err(e) => Err(e),
    }
}

/// The text is not an amount, or it writes one that fits in `u64`.
pub open spec fn amount_fits(s: Seq<char>) -> bool {
    match parse_amount_value(s) {
        Ok(v) => v <= u64::MAX,
        Err(_) => true,
    }
}

/// The character of a digit.
pub open spec fn digit_char(d: int) -> char {
    if d == 0 {
        '0'
    } else if d == 1 {
        '1'
    } else if d == 2 {
        '2'
    } else if d == 3 {
        '3'
    } else if d == 4 {
        '4'
    } else if d == 5 {
        '5'
    } else if d == 6 {
        '6'
    } else if d == 7 {
        '7'
    } else if d == 8 {
        '8'
    } else {
        '9'
    }
}

/// The base-ten digits of `n`, with no leading zero.
pub open spec fn decimal_digits(n: nat) -> Seq<char>
    decreases n,
{
    if n < 10 {
        seq![digit_char(n as int)]
    } else {
        decimal_digits(n / 10).push(digit_char((n % 10) as int))
    }
}

/// The four digits of `n % 10000`, zero-padded on the left.
pub open spec fn four_digits(n: nat) -> Seq<char> {
    let r = (n % 10000) as int;
    seq![
        digit_char(r / 1000),
        digit_char(r / 100 % 10),
        digit_char(r / 10 % 10),
        digit_char(r % 10),
    ]
}

/// The text of an amount of `v` ten-thousandths: the whole units, '.', and
/// four decimals, as `format!("{}.{:04}", v / 10_000, v % 10_000)` gives it.
pub open spec fn amount_text(v: nat) -> Seq<char> {
    decimal_digits(v / 10000) + seq!['.'] + four_digits(v)
}

/// Where the first '.' stands, `split_at_dot` cuts.
pub proof fn lemma_split_at_dot(s: Seq<char>, k: int)
    requires
        0 <= k <= s.len(),
        forall|j: int| 0 <= j < k ==> #[trigger] s[j] != '.',
        k == s.len() || s[k] == '.',
    ensures
        k < s.len() ==> split_at_dot(s) == (s.take(k), s.skip(k + 1)),
        k == s.len() ==> split_at_dot(s) == (s, Seq::<char>::empty()),
    decreases k,
{
    if k == 0 {
        if s.len() > 0 {
            assert(s.take(0) =~= Seq::<char>::empty());
            assert(s.skip(1) =~= s.drop_first());
        }
    } else {
        let t = s.drop_first();
        assert forall|j: int| 0 <= j < k - 1 implies #[trigger] t[j] != '.' by {
            assert(t[j] == s[j + 1]);
        }
        lemma_split_at_dot(t, k - 1);
        if k < s.len() {
            assert(seq![s[0]] + t.take(k - 1) =~= s.take(k));
            assert(t.skip(k) =~= s.skip(k + 1));
        } else {
            assert(seq![s[0]] + t =~= s);
        }
    }
}

/// Facts about the character of a digit.
pub proof fn lemma_digit_char(d: int)
    requires
        0 <= d < 10,
    ensures
        is_digit(digit_char(d)),
        digit_value(digit_char(d)) == d,
        digit_char(d) != '.',
        digit_char(d) != '+',
        !is_whitespace(digit_char(d)),
        char_width(digit_char(d)) == 1,
{
}

/// The digits of `n` are a non-empty run of digits, free of '.', that reads
/// back as `n`.
pub proof fn lemma_decimal_digits(n: nat)
    ensures
        decimal_digits(n).len() > 0,
        all_digits(decimal_digits(n)),
        digits_value(decimal_digits(n)) == n,
        forall|i: int| 0 <= i < decimal_digits(n).len() ==> #[trigger] decimal_digits(n)[i] != '.',
    decreases n,
{
    if n < 10 {
        lemma_digit_char(n as int);
        assert(decimal_digits(n).drop_last() =~= Seq::<char>::empty());
        assert(digits_value(decimal_digits(n)) == digits_value(Seq::<char>::empty()) * 10
            + digit_value(digit_char(n as int)));
    } else {
        lemma_decimal_digits(n / 10);
        lemma_digit_char((n % 10) as int);
        let s = decimal_digits(n);
        assert(s.drop_last() =~= decimal_digits(n / 10));
        assert(s.last() == digit_char((n % 10) as int));
        assert(digits_value(s) == digits_value(decimal_digits(n / 10)) * 10 + digit_value(s.last()));
        assert(n == (n / 10) * 10 + n % 10);
        assert forall|i: int| 0 <= i < s.len() implies #[trigger] is_digit(s[i]) && s[i] != '.' by {
            if i < s.len() - 1 {
                assert(s[i] == decimal_digits(n / 10)[i]);
            }
        }
    }
}

/// The four decimals are four one-byte digits that read back as `n % 10000`.
pub proof fn lemma_four_digits(n: nat)
    ensures
        four_digits(n).len() == 4,
        !is_whitespace(four_digits(n).last()),
        utf8_width(four_digits(n)) == 4,
        pad4(four_digits(n)) == four_digits(n),
        parse_u64(four_digits(n)) == Some((n % 10000) as u64),
{
    let r = (n % 10000) as int;
    let four = four_digits(n);
    lemma_digit_char(r / 1000);
    lemma_digit_char(r / 100 % 10);
    lemma_digit_char(r / 10 % 10);
    lemma_digit_char(r % 10);
    assert(four.drop_last().drop_last().drop_last().drop_last() =~= Seq::<char>::empty());
    assert(utf8_width(four) == 4) by {
        reveal_with_fuel(utf8_width, 5);
    }
    assert(without_plus(four) == four);
    assert(all_digits(four));
    assert(digits_value(four) == r) by {
        reveal_with_fuel(digits_value, 5);
        assert(r == (r / 1000) * 1000 + (r / 100 % 10) * 100 + (r / 10 % 10) * 10 + r % 10)
            by (nonlinear_arith)
            requires
                0 <= r < 10000,
        ;
    }
}

/// The text of an amount has no surrounding whitespace, and its first '.'
/// parts the whole units from the four decimals.
pub proof fn lemma_amount_text_parts(v: nat)
    ensures
        trim(amount_text(v)) == amount_text(v),
        split_at_dot(amount_text(v)) == (decimal_digits(v / 10000), four_digits(v)),
{
    let digits = decimal_digits(v / 10000);
    let four = four_digits(v);
    let text = amount_text(v);
    lemma_decimal_digits(v / 10000);
    lemma_four_digits(v);
    assert(text[0] == digits[0]);
    assert(is_digit(digits[0]));
    assert(text.last() == four.last());
    assert(trim_start(text) == text);
    assert(trim_end(text) == text);
    assert forall|j: int| 0 <= j < digits.len() implies #[trigger] text[j] != '.' by {
        assert(text[j] == digits[j]);
    }
    lemma_split_at_dot(text, digits.len() as int);
    assert(text.take(digits.len() as int) =~= digits);
    assert(text.skip(digits.len() as int + 1) =~= four);
}

/// Reading the text of an amount gives the amount back.
pub proof fn amount_text_reads_back(v: nat)
    requires
        v <= u64::MAX,
    ensures
        parse_amount_value(amount_text(v)) == Ok::<int, AmountError>(v as int),
        amount_fits(amount_text(v)),
{
    let units = v / 10000;
    let r = v % 10000;
    let digits = decimal_digits(units);
    lemma_decimal_digits(units);
    lemma_four_digits(v);
    lemma_amount_text_parts(v);
    assert(is_digit(digits[0]));
    assert(without_plus(digits) == digits);
    assert(parse_u64(digits) == Some(units as u64));
    assert(units * 10000 + r == v) by (nonlinear_arith)
        requires
            units == v / 10000,
            r == v % 10000,
    ;
}

proof fn lemma_split_keeps_first(s: Seq<char>)
    requires
        s.len() > 0,
        s[0] != '.',
    ensures
        split_at_dot(s).0.len() > 0,
        split_at_dot(s).0[0] == s[0],
{
}

/// A text whose first non-whitespace character is '-' is no amount: amounts
/// are never negative.
pub proof fn negative_text_is_refused(s: Seq<char>)
    requires
        trim(s).len() > 0,
        trim(s)[0] == '-',
    ensures
        parse_amount_value(s) is Err,
{
    let t = trim(s);
    lemma_split_keeps_first(t);
    let int_part = split_at_dot(t).0;
    assert(without_plus(int_part) == int_part);
    assert(!is_digit(int_part[0]));
}

/// Ten to the power `n`.
pub open spec fn pow10(n: nat) -> nat
    decreases n,
{
    if n == 0 {
        1
    } else {
        10 * pow10((n - 1) as nat)
    }
}

proof fn lemma_digit_is_plain(c: char)
    requires
        is_digit(c),
    ensures
        !is_whitespace(c),
        c != '+',
        c != '.',
        char_width(c) == 1,
{
}

proof fn lemma_digits_width(s: Seq<char>)
    requires
        all_digits(s),
    ensures
        utf8_width(s) == s.len(),
    decreases s.len(),
{
    if s.len() > 0 {
        let t = s.drop_last();
        assert forall|i: int| 0 <= i < t.len() implies #[trigger] is_digit(t[i]) by {
            assert(is_digit(s[i]));
        }
        lemma_digits_width(t);
        lemma_digit_is_plain(s[s.len() - 1]);
    }
}

proof fn lemma_digits_value_below_pow10(s: Seq<char>)
    requires
        all_digits(s),
    ensures
        digits_value(s) < pow10(s.len()),
    decreases s.len(),
{
    if s.len() > 0 {
        let t = s.drop_last();
        assert forall|i: int| 0 <= i < t.len() implies #[trigger] is_digit(t[i]) by {
            assert(is_digit(s[i]));
        }
        lemma_digits_value_below_pow10(t);
        assert(is_digit(s[s.len() - 1]));
    }
}

/// `m` zeros.
pub open spec fn zeros(m: nat) -> Seq<char> {
    Seq::new(m, |i: int| '0')
}

proof fn lemma_append_zeros(d: Seq<char>, m: nat)
    ensures
        digits_value(d + zeros(m)) == digits_value(d) * pow10(m),
    decreases m,
{
    if m > 0 {
        let s = d + zeros(m);
        let shorter = d + zeros((m - 1) as nat);
        assert(s.drop_last() =~= shorter);
        assert(s.last() == '0');
        lemma_append_zeros(d, (m - 1) as nat);
        let x = digits_value(d);
        let p = pow10((m - 1) as nat);
        assert(digit_value('0') == 0);
        assert(digits_value(s) == digits_value(shorter) * 10);
        assert(digits_value(shorter) == x * p);
        assert(pow10(m) == 10 * p);
        assert((x * p) * 10 == x * (10 * p)) by (nonlinear_arith);
        assert(digits_value(s) == x * pow10(m));
    } else {
        assert(d + zeros(0) =~= d);
        assert(pow10(0) == 1);
        assert(digits_value(d) * pow10(0) == digits_value(d));
    }
}

/// The text of whole units, '.', and up to four decimals reads as the units
/// in ten-thousandths plus the decimals scaled to four places: a decimal part
/// of `k` digits counts `10^(4 - k)` ten-thousandths per unit of its value, so
/// `0.125` reads as 1250 and `2.5` as 25000.
pub proof fn decimal_text_reads_as_fixed_point(units: Seq<char>, decimals: Seq<char>)
    requires
        units.len() > 0,
        all_digits(units),
        digits_value(units) <= u64::MAX,
        all_digits(decimals),
        decimals.len() <= 4,
    ensures
        parse_amount_value(units + seq!['.'] + decimals) == Ok::<int, AmountError>(
            (digits_value(units) * 10000 + digits_value(decimals) * pow10(
                (4 - decimals.len()) as nat,
            )) as int,
        ),
{
    let text = units + seq!['.'] + decimals;
    // no surrounding whitespace
    assert(text[0] == units[0]);
    lemma_digit_is_plain(units[0]);
    if decimals.len() > 0 {
        assert(text.last() == decimals.last());
        lemma_digit_is_plain(decimals[decimals.len() - 1]);
    } else {
        assert(text.last() == '.');
    }
    assert(trim_start(text) == text);
    assert(trim_end(text) == text);
    // the first '.' follows the units
    assert forall|j: int| 0 <= j < units.len() implies #[trigger] text[j] != '.' by {
        assert(text[j] == units[j]);
        lemma_digit_is_plain(units[j]);
    }
    lemma_split_at_dot(text, units.len() as int);
    assert(text.take(units.len() as int) =~= units);
    assert(text.skip(units.len() as int + 1) =~= decimals);
    // decimals fit in four bytes
    lemma_digits_width(decimals);
    // the units read as their value
    assert(without_plus(units) == units);
    // the decimals, padded, read as their value scaled to four places
    let m = (4 - decimals.len()) as nat;
    let padded = decimals + zeros(m);
    assert(pad4(decimals) =~= padded);
    assert(all_digits(padded)) by {
        assert forall|i: int| 0 <= i < padded.len() implies #[trigger] is_digit(padded[i]) by {
            if i < decimals.len() {
                assert(is_digit(decimals[i]));
            }
        }
    }
    assert(padded.len() == 4);
    assert(is_digit(padded[0]));
    lemma_digit_is_plain(padded[0]);
    assert(without_plus(padded) == padded);
    lemma_append_zeros(decimals, m);
    lemma_digits_value_below_pow10(padded);
    assert(pow10(4) == 10000) by {
        reveal_with_fuel(pow10, 5);
    }
}

/// Every character is whitespace.
pub open spec fn all_whitespace(w: Seq<char>) -> bool {
    forall|i: int| 0 <= i < w.len() ==> #[trigger] is_whitespace(w[i])
}

proof fn lemma_trim_start_all_whitespace(w: Seq<char>)
    requires
        all_whitespace(w),
    ensures
        trim_start(w) == Seq::<char>::empty(),
    decreases w.len(),
{
    if w.len() > 0 {
        let t = w.drop_first();
        assert forall|i: int| 0 <= i < t.len() implies #[trigger] is_whitespace(t[i]) by {
            assert(t[i] == w[i + 1]);
        }
        assert(is_whitespace(w[0]));
        lemma_trim_start_all_whitespace(t);
    } else {
        assert(w =~= Seq::<char>::empty());
    }
}

proof fn lemma_trim_start_prefix(w: Seq<char>, x: Seq<char>)
    requires
        all_whitespace(w),
    ensures
        trim_start(w + x) == trim_start(x),
    decreases w.len(),
{
    if w.len() > 0 {
        let t = w.drop_first();
        assert forall|i: int| 0 <= i < t.len() implies #[trigger] is_whitespace(t[i]) by {
            assert(t[i] == w[i + 1]);
        }
        assert(is_whitespace(w[0]));
        assert((w + x)[0] == w[0]);
        assert((w + x).drop_first() =~= t + x);
        lemma_trim_start_prefix(t, x);
    } else {
        assert(w + x =~= x);
    }
}

proof fn lemma_trim_end_suffix(x: Seq<char>, w: Seq<char>)
    requires
        all_whitespace(w),
    ensures
        trim_end(x + w) == trim_end(x),
    decreases w.len(),
{
    if w.len() > 0 {
        let t = w.drop_last();
        assert forall|i: int| 0 <= i < t.len() implies #[trigger] is_whitespace(t[i]) by {
            assert(t[i] == w[i]);
        }
        assert(is_whitespace(w[w.len() - 1]));
        assert((x + w).last() == w.last());
        assert((x + w).drop_last() =~= x + t);
        lemma_trim_end_suffix(x, t);
    } else {
        assert(x + w =~= x);
    }
}

proof fn lemma_trim_start_append(s: Seq<char>, w: Seq<char>)
    ensures
        trim_start(s).len() > 0 ==> trim_start(s + w) == trim_start(s) + w,
        trim_start(s).len() == 0 ==> trim_start(s + w) == trim_start(w),
    decreases s.len(),
{
    if s.len() == 0 {
        assert(s + w =~= w);
    } else if is_whitespace(s[0]) {
        assert((s + w)[0] == s[0]);
        assert((s + w).drop_first() =~= s.drop_first() + w);
        lemma_trim_start_append(s.drop_first(), w);
    } else {
        assert((s + w)[0] == s[0]);
    }
}

/// Whitespace around an amount's text changes nothing in what it reads as.
pub proof fn surrounding_whitespace_is_ignored(before: Seq<char>, s: Seq<char>, after: Seq<char>)
    requires
        all_whitespace(before),
        all_whitespace(after),
    ensures
        parse_amount_value(before + s + after) == parse_amount_value(s),
{
    assert(before + s + after =~= before + (s + after));
    lemma_trim_start_prefix(before, s + after);
    lemma_trim_start_append(s, after);
    if trim_start(s).len() > 0 {
        lemma_trim_end_suffix(trim_start(s), after);
    } else {
        lemma_trim_start_all_whitespace(after);
        assert(trim_start(s) =~= Seq::<char>::empty());
    }
    assert(trim(before + s + after) == trim(s));
}

} // verus!
