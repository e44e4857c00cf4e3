//! Decimal text such as `"50000.01000000"` read as a fixed-point integer with
//! eight decimal places. Fraction digits past the eighth round the value to the
//! nearest unit, halves away from zero; exponents (`"1e5"`) are not read.
use vstd::prelude::*;
use crate::models::PRICE_SCALE;

verus! {

/// Whether `c` is an ASCII decimal digit.
pub open spec fn is_digit(c: char) -> bool {
    '0' <= c <= '9'
}

/// The value of a decimal digit.
pub open spec fn digit_value(c: char) -> int {
    c as int - '0' as int
}

/// The value of a run of decimal digits.
pub open spec fn digits_value(s: Seq<char>) -> int
    decreases s.len(),
{
    if s.len() == 0 {
        0
    } else {
        digits_value(s.drop_last()) * 10 + digit_value(s.last())
    }
}

/// Length of the run of digits at the start of `s`.
pub open spec fn leading_digits(s: Seq<char>) -> nat
    decreases s.len(),
{
    if s.len() > 0 && is_digit(s[0]) {
        1 + leading_digits(s.drop_first())
    } else {
        0
    }
}

/// Ten to the power `n`.
pub open spec fn pow10(n: nat) -> int
    decreases n,
{
    if n == 0 {
        1
    } else {
        10 * pow10((n - 1) as nat)
    }
}

/// Number of fraction digits that carry value.
pub const FRACTION_DIGITS: usize = 8;

/// Whether `f`, the text after a decimal point, is digits only (possibly none).
pub open spec fn fraction_ok(f: Seq<char>) -> bool {
    leading_digits(f) == f.len()
}

/// How many of the fraction digits `f` carry value: at most eight.
pub open spec fn fraction_n(f: Seq<char>) -> int {
    if f.len() < 8 {
        f.len() as int
    } else {
        8
    }
}

/// Whether fraction digits `f` round up in the last counted place: the ninth
/// digit is 5 or more.
pub open spec fn rounds_up(f: Seq<char>) -> bool {
    f.len() > 8 && digit_value(f[8]) >= 5
}

/// The value of fraction digits `f` in units of `1 / PRICE_SCALE`, rounded to
/// the nearest unit (halves up).
pub open spec fn fraction_units(f: Seq<char>) -> int {
    digits_value(f.subrange(0, fraction_n(f))) * pow10((8 - fraction_n(f)) as nat) + if rounds_up(
        f,
    ) {
        1int
    } else {
        0int
    }
}

/// The magnitude written by unsigned decimal text `t`, in units of
/// `1 / PRICE_SCALE`: digits, optionally followed by `.` and more digits, with at
/// least one digit in all (`"5"`, `"5."`, `".5"`, `"5.25"`).
pub open spec fn unsigned_units(t: Seq<char>) -> Option<int> {
    let k = leading_digits(t) as int;
    if k == t.len() {
        if k == 0 {
            None
        } else {
            Some(digits_value(t) * PRICE_SCALE)
        }
    } else if t[k] != '.' || !fraction_ok(t.subrange(k + 1, t.len() as int)) || (k == 0 && t.len()
        == 1) {
        None
    } else {
        Some(digits_value(t.subrange(0, k)) * PRICE_SCALE + fraction_units(
            t.subrange(k + 1, t.len() as int),
        ))
    }
}

/// The value written by decimal text `s` (an optional leading `-` or `+`, then
/// unsigned decimal text), in units of `1 / PRICE_SCALE`, when it is well-formed
/// and fits in an `i64`.
pub open spec fn decimal_units(s: Seq<char>) -> Option<int> {
    let neg = s.len() > 0 && s[0] == '-';
    let signed = s.len() > 0 && (s[0] == '-' || s[0] == '+');
    let t = if signed { s.drop_first() } else { s };
    match unsigned_units(t) {
        Some(m) => if m > i64::MAX {
            None
        } else if neg {
            Some(-m)
        } else {
            Some(m)
        },
        None => None,
    }
}

proof fn lemma_leading_digits(s: Seq<char>, k: int)
    requires
        0 <= k <= s.len(),
        forall|j: int| 0 <= j < k ==> is_digit(#[trigger] s[j]),
        k == s.len() || !is_digit(s[k]),
    ensures
        leading_digits(s) == k,
    decreases k,
{
    if k > 0 {
        let t = s.drop_first();
        assert forall|j: int| 0 <= j < k - 1 implies is_digit(#[trigger] t[j]) by {
            assert(t[j] == s[j + 1]);
        }
        lemma_leading_digits(t, k - 1);
    }
}

proof fn lemma_digits_value_nonneg(s: Seq<char>)
    requires
        forall|j: int| 0 <= j < s.len() ==> is_digit(#[trigger] s[j]),
    ensures
        digits_value(s) >= 0,
    decreases s.len(),
{
    if s.len() > 0 {
        lemma_digits_value_nonneg(s.drop_last());
    }
}

/// Reads the run of digits `s[from..to]`, or `None` once its value would exceed
/// `limit`.
fn read_digits(s: &str, from: usize, to: usize, limit: u128) -> (r: Option<u128>)
    requires
        from <= to <= s@.len(),
        forall|j: int| from <= j < to ==> is_digit(#[trigger] s@[j]),
        limit <= u64::MAX,
    ensures
        r matches Some(v) ==> v == digits_value(s@.subrange(from as int, to as int)) && v <= limit,
        r is None ==> digits_value(s@.subrange(from as int, to as int)) > limit,
{
    let mut acc: u128 = 0;
    let mut i = from;
    while i < to
        invariant
            from <= i <= to <= s@.len(),
            forall|j: int| from <= j < to ==> is_digit(#[trigger] s@[j]),
            acc == digits_value(s@.subrange(from as int, i as int)),
            acc <= limit <= u64::MAX,
        decreases to - i,
    {
        let c = s.get_char(i);
        let d = (c as u32 - '0' as u32) as u128;
        assert(s@.subrange(from as int, i + 1).drop_last() =~= s@.subrange(from as int, i as int));
        acc = acc * 10 + d;
        i = i + 1;
        if acc > limit {
            proof {
                lemma_digits_grow(s@.subrange(from as int, to as int), i - from);
                assert(s@.subrange(from as int, to as int).subrange(0, i - from) =~= s@.subrange(
                    from as int,
                    i as int,
                ));
            }
            return None;
        }
    }
    Some(acc)
}

/// The value of a run of digits is at least that of any of its prefixes.
proof fn lemma_digits_grow(s: Seq<char>, k: int)
    requires
        0 <= k <= s.len(),
        forall|j: int| 0 <= j < s.len() ==> is_digit(#[trigger] s[j]),
    ensures
        digits_value(s) >= digits_value(s.subrange(0, k)),
    decreases s.len() - k,
{
    if k < s.len() {
        lemma_digits_grow(s, k + 1);
        let p = s.subrange(0, k + 1);
        assert(p.drop_last() =~= s.subrange(0, k));
        assert forall|j: int| 0 <= j < p.drop_last().len() implies is_digit(
            #[trigger] p.drop_last()[j],
        ) by {
            assert(p.drop_last()[j] == s[j]);
        }
        lemma_digits_value_nonneg(p.drop_last());
    } else {
        assert(s.subrange(0, k) =~= s);
    }
}

/// Reads the fraction digits `s[from..]`.
fn parse_fraction(s: &str, from: usize) -> (r: Option<u128>)
    requires
        from <= s@.len(),
    ensures
        r matches Some(v) ==> fraction_ok(s@.subrange(from as int, s@.len() as int)) && v
            == fraction_units(s@.subrange(from as int, s@.len() as int)) && v <= 100_000_000,
        r is None ==> !fraction_ok(s@.subrange(from as int, s@.len() as int)),
{
    let len = s.unicode_len();
    let ghost f = s@.subrange(from as int, len as int);
    let mut e = from;
    while e < len && is_digit_exec(s.get_char(e))
        invariant
            from <= e <= len == s@.len(),
            forall|j: int| from <= j < e ==> is_digit(#[trigger] s@[j]),
        decreases len - e,
    {
        e = e + 1;
    }
    proof {
        assert forall|j: int| 0 <= j < e - from implies is_digit(#[trigger] f[j]) by {
            assert(f[j] == s@[j + from]);
        }
        if e < len {
            assert(f[e - from] == s@[e as int]);
        }
        lemma_leading_digits(f, e - from);
    }
    if e < len {
        return None;
    }
    let n: usize = if len - from < FRACTION_DIGITS { len - from } else { FRACTION_DIGITS };
    assert(s@.subrange(from as int, (from + n) as int) =~= f.subrange(0, n as int));
    assert forall|j: int| 0 <= j < n implies is_digit(#[trigger] f.subrange(0, n as int)[j]) by {
        assert(f.subrange(0, n as int)[j] == f[j]);
    }
    proof {
        lemma_digits_bound(f.subrange(0, n as int));
        lemma_pow10_bound(n as nat);
    }
    let frac = match read_digits(s, from, from + n, u64::MAX as u128) {
        Some(v) => v,
        None => {
            return None;
        },
    };
    let mut scale: u128 = 1;
    let mut m: usize = n;
    while m < FRACTION_DIGITS
        invariant
            n <= m <= FRACTION_DIGITS,
            scale == pow10((m - n) as nat),
            scale <= 100_000_000,
        decreases FRACTION_DIGITS - m,
    {
        proof {
            lemma_pow10_bound((m + 1 - n) as nat);
        }
        scale = scale * 10;
        m = m + 1;
    }
    assert(frac * scale < 100_000_000) by (nonlinear_arith)
        requires
            frac < pow10(n as nat),
            scale == pow10((8 - n) as nat),
            pow10(n as nat) * pow10((8 - n) as nat) == 100_000_000,
            frac >= 0,
    {
    }
    if len - from > FRACTION_DIGITS && s.get_char(from + FRACTION_DIGITS) >= '5' {
        assert(f[8] == s@[from + 8]);
        Some(frac * scale + 1)
    } else {
        proof {
            if f.len() > 8 {
                assert(f[8] == s@[from + 8]);
            }
        }
        Some(frac * scale)
    }
}

/// Reads decimal text such as `"50000.01"` or `"-0.5"` as a fixed-point integer
/// with eight decimal places; `None` when the text is not of that form or the
/// value does not fit in an `i64`.
pub fn parse_decimal(s: &str) -> (r: Option<i64>)
    ensures
        r matches Some(v) ==> decimal_units(s@) == Some(v as int),
        r is None <==> decimal_units(s@) is None,
{
    let len = s.unicode_len();
    let first = if len > 0 { s.get_char(0) } else { ' ' };
    let neg = len > 0 && first == '-';
    let signed = len > 0 && (first == '-' || first == '+');
    let start: usize = if signed { 1 } else { 0 };
    let ghost t = if signed { s@.drop_first() } else { s@ };
    assert(t =~= s@.subrange(start as int, len as int));
    // the run of integer digits
    let mut k = start;
    while k < len && is_digit_exec(s.get_char(k))
        invariant
            start <= k <= len == s@.len(),
            forall|j: int| start <= j < k ==> is_digit(#[trigger] s@[j]),
        decreases len - k,
    {
        k = k + 1;
    }
    proof {
        assert forall|j: int| 0 <= j < k - start implies is_digit(#[trigger] t[j]) by {
            assert(t[j] == s@[j + start]);
        }
        if k < len {
            assert(t[k - start] == s@[k as int]);
        }
        lemma_leading_digits(t, k - start);
    }
    if k == len && k == start {
        return None;
    }
    let ghost ip = t.subrange(0, k - start);
    assert(s@.subrange(start as int, k as int) =~= ip);
    if k == len {
        assert(t =~= ip);
    }
    let limit: u128 = (i64::MAX as u128) / (PRICE_SCALE as u128);
    let ghost f = t.subrange(k - start + 1, t.len() as int);
    let int_part = match read_digits(s, start, k, limit) {
        Some(v) => v,
        None => {
            proof {
                lemma_int_part_too_large(t, k - start, limit as int);
            }
            return None;
        },
    };
    let ip_units = int_part * (PRICE_SCALE as u128);
    assert(ip_units <= i64::MAX) by (nonlinear_arith)
        requires
            int_part <= limit,
            limit == (i64::MAX as u128) / (PRICE_SCALE as u128),
            ip_units == int_part * (PRICE_SCALE as u128),
            PRICE_SCALE == 100_000_000,
    ;
    if k == len {
        return Some(if neg { -(ip_units as i64) } else { ip_units as i64 });
    }
    assert(t[k - start] == s@[k as int]);
    if s.get_char(k) != '.' {
        return None;
    }
    assert(f =~= s@.subrange(k + 1, len as int));
    if k == start && len == k + 1 {
        return None;
    }
    let frac = match parse_fraction(s, k + 1) {
        Some(v) => v,
        None => {
            return None;
        },
    };
    let v = ip_units + frac;
    if v > i64::MAX as u128 {
        return None;
    }
    Some(if neg { -(v as i64) } else { v as i64 })
}

/// Integer digits worth more than `limit` whole units leave no value that fits.
proof fn lemma_int_part_too_large(t: Seq<char>, k: int, limit: int)
    requires
        0 <= k <= t.len(),
        leading_digits(t) == k,
        digits_value(t.subrange(0, k)) > limit,
        limit == (i64::MAX as int) / (PRICE_SCALE as int),
    ensures
        unsigned_units(t) matches Some(m) ==> m > i64::MAX,
{
    let d = digits_value(t.subrange(0, k));
    let f = t.subrange(k + 1, t.len() as int);
    if k == t.len() {
        assert(t.subrange(0, k) =~= t);
    }
    if k < t.len() && t[k] == '.' && fraction_ok(f) {
        let fu = fraction_units(f);
        assert(fu >= 0) by {
            assert forall|j: int| 0 <= j < fraction_n(f) implies is_digit(
                #[trigger] f.subrange(0, fraction_n(f))[j],
            ) by {
                assert(f.subrange(0, fraction_n(f))[j] == f[j]);
                lemma_leading_digits_all(f, j);
            }
            lemma_digits_bound(f.subrange(0, fraction_n(f)));
            lemma_pow10_bound((8 - fraction_n(f)) as nat);
        }
        assert(d * PRICE_SCALE + fu > i64::MAX) by (nonlinear_arith)
            requires
                d > limit,
                limit == (i64::MAX as int) / (PRICE_SCALE as int),
                PRICE_SCALE == 100_000_000,
                fu >= 0,
        ;
    } else {
        assert(d * PRICE_SCALE > i64::MAX) by (nonlinear_arith)
            requires
                d > limit,
                limit == (i64::MAX as int) / (PRICE_SCALE as int),
                PRICE_SCALE == 100_000_000,
        ;
    }
}

proof fn lemma_leading_digits_all(s: Seq<char>, j: int)
    requires
        leading_digits(s) == s.len(),
        0 <= j < s.len(),
    ensures
        is_digit(s[j]),
    decreases j,
{
    if j > 0 {
        lemma_leading_digits_all(s.drop_first(), j - 1);
    }
}

fn is_digit_exec(c: char) -> (r: bool)
    ensures
        r == is_digit(c),
{
    '0' <= c && c <= '9'
}

/// A run of `n` digits is below `10^n`.
proof fn lemma_digits_bound(s: Seq<char>)
    requires
        forall|j: int| 0 <= j < s.len() ==> is_digit(#[trigger] s[j]),
    ensures
        0 <= digits_value(s) < pow10(s.len()),
    decreases s.len(),
{
    if s.len() > 0 {
        let p = s.drop_last();
        assert forall|j: int| 0 <= j < p.len() implies is_digit(#[trigger] p[j]) by {
            assert(p[j] == s[j]);
        }
        lemma_digits_bound(p);
    }
}

/// Powers of ten up to the eighth, and how two of them make the eighth.
proof fn lemma_pow10_bound(n: nat)
    requires
        n <= 8,
    ensures
        1 <= pow10(n) <= 100_000_000,
        pow10(n) * pow10((8 - n) as nat) == 100_000_000,
{
    reveal_with_fuel(pow10, 9);
    assert(pow10(0) == 1);
    assert(pow10(1) == 10);
    assert(pow10(2) == 100);
    assert(pow10(3) == 1000);
    assert(pow10(4) == 10000);
    assert(pow10(5) == 100000);
    assert(pow10(6) == 1000000);
    assert(pow10(7) == 10000000);
    assert(pow10(8) == 100000000);
    if n == 0 {
        assert(pow10(n) * pow10((8 - n) as nat) == 1 * 100000000);
    } else if n == 1 {
        assert(pow10(n) * pow10((8 - n) as nat) == 10 * 10000000);
    } else if n == 2 {
        assert(pow10(n) * pow10((8 - n) as nat) == 100 * 1000000);
    } else if n == 3 {
        assert(pow10(n) * pow10((8 - n) as nat) == 1000 * 100000);
    } else if n == 4 {
        assert(pow10(n) * pow10((8 - n) as nat) == 10000 * 10000);
    } else if n == 5 {
        assert(pow10(n) * pow10((8 - n) as nat) == 100000 * 1000);
    } else if n == 6 {
        assert(pow10(n) * pow10((8 - n) as nat) == 1000000 * 100);
    } else if n == 7 {
        assert(pow10(n) * pow10((8 - n) as nat) == 10000000 * 10);
    } else {
        assert(pow10(n) * pow10((8 - n) as nat) == 100000000 * 1);
    }
}

} // verus!
