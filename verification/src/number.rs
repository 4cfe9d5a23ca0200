//! Decimal integer parsing with the rules of `str::parse` for integers:
//! an optional sign, then one or more ASCII digits, within the range of the
//! target type.
use vstd::prelude::*;
use crate::text::is_digit;

verus! {

/// The value of a string of decimal digits.
pub open spec fn digits_value(s: Seq<char>) -> int
    decreases s.len(),
{
    if s.len() == 0 {
        0
    } else {
        digits_value(s.drop_last()) * 10 + (s.last() as int - '0' as int)
    }
}

/// Every character of `s` is an ASCII digit.
pub open spec fn all_digits(s: Seq<char>) -> bool {
    forall|i: int| 0 <= i < s.len() ==> is_digit(#[trigger] s[i])
}

/// One or more ASCII digits.
pub open spec fn is_digit_run(s: Seq<char>) -> bool {
    s.len() > 0 && all_digits(s)
}

/// The integer that `s` spells: an optional `+` (or `-` where `signed`)
/// followed by one or more digits; `None` for any other text.
pub open spec fn decimal_value(s: Seq<char>, signed: bool) -> Option<int> {
    if s.len() > 0 && s[0] == '+' {
        if is_digit_run(s.drop_first()) {
            Some(digits_value(s.drop_first()))
        } else {
            None
        }
    } else if signed && s.len() > 0 && s[0] == '-' {
        if is_digit_run(s.drop_first()) {
            Some(-digits_value(s.drop_first()))
        } else {
            None
        }
    } else if is_digit_run(s) {
        Some(digits_value(s))
    } else {
        None
    }
}

/// What `s.parse::<u64>()` gives, as an integer.
pub open spec fn parsed_u64(s: Seq<char>) -> Option<int> {
    match decimal_value(s, false) {
        Some(v) => if v <= u64::MAX {
            Some(v)
        } else {
            None
        },
        None => None,
    }
}

/// What `s.parse::<i64>()` gives, as an integer.
pub open spec fn parsed_i64(s: Seq<char>) -> Option<int> {
    match decimal_value(s, true) {
        Some(v) => if i64::MIN <= v <= i64::MAX {
            Some(v)
        } else {
            None
        },
        None => None,
    }
}

/// What `s.parse::<i32>()` gives, as an integer.
pub open spec fn parsed_i32(s: Seq<char>) -> Option<int> {
    match decimal_value(s, true) {
        Some(v) => if i32::MIN <= v <= i32::MAX {
            Some(v)
        } else {
            None
        },
        None => None,
    }
}

/// A digit string has a non-negative value.
pub proof fn lemma_digits_nonneg(s: Seq<char>)
    requires
        all_digits(s),
    ensures
        digits_value(s) >= 0,
    decreases s.len(),
{
    if s.len() > 0 {
        assert(is_digit(s[s.len() - 1]));
        lemma_digits_nonneg(s.drop_last());
    }
}

/// What `parse::<u64>` gives is not negative.
pub proof fn lemma_parsed_u64_nonneg(s: Seq<char>)
    ensures
        parsed_u64(s) matches Some(v) ==> v >= 0,
{
    if s.len() > 0 && s[0] == '+' && is_digit_run(s.drop_first()) {
        lemma_digits_nonneg(s.drop_first());
    } else if is_digit_run(s) {
        lemma_digits_nonneg(s);
    }
}

/// A prefix of a digit string has a value no larger than the whole.
pub proof fn lemma_digits_prefix_le(s: Seq<char>, k: int)
    requires
        all_digits(s),
        0 <= k <= s.len(),
    ensures
        digits_value(s.take(k)) <= digits_value(s),
    decreases s.len(),
{
    if k == s.len() {
        assert(s.take(k) =~= s);
    } else {
        assert(is_digit(s[s.len() - 1]));
        lemma_digits_nonneg(s.drop_last());
        lemma_digits_prefix_le(s.drop_last(), k);
        assert(s.drop_last().take(k) =~= s.take(k));
    }
}

/// Reads the digits `v[from..]`: their value where it fits in `u64`, and
/// `None` where some character is not a digit, where there are none, or
/// where the value does not fit.
fn digits_u64(v: &[char], from: usize) -> (r: Option<u64>)
    requires
        from <= v@.len(),
    ensures
        ({
            let d = v@.skip(from as int);
            match r {
                Some(x) => is_digit_run(d) && digits_value(d) == x,
                None => !is_digit_run(d) || digits_value(d) > u64::MAX,
            }
        }),
{
    let ghost d = v@.skip(from as int);
    if from == v.len() {
        return None;
    }
    let mut acc: u64 = 0;
    let mut i = from;
    while i < v.len()
        invariant
            from <= i <= v@.len(),
            d == v@.skip(from as int),
            all_digits(d.take(i - from)),
            acc == digits_value(d.take(i - from)),
        decreases v@.len() - i,
    {
        let c = v[i];
        if !('0' <= c && c <= '9') {
            assert(d[i - from] == c);
            return None;
        }
        let digit = (c as u32 - '0' as u32) as u64;
        let ghost k = i - from;
        assert(d.take(k + 1).drop_last() =~= d.take(k));
        assert(d.take(k + 1).last() == c);
        assert(all_digits(d.take(k + 1)));
        match acc.checked_mul(10) {
            Some(m) => match m.checked_add(digit) {
                Some(next) => {
                    acc = next;
                },
                None => {
                    proof {
                        if all_digits(d) {
                            lemma_digits_prefix_le(d, k + 1);
                        }
                    }
                    return None;
                },
            },
            None => {
                proof {
                    if all_digits(d) {
                        lemma_digits_nonneg(d.take(k));
                        lemma_digits_prefix_le(d, k + 1);
                    }
                }
                return None;
            },
        }
        i = i + 1;
    }
    assert(d.take(i - from) =~= d);
    Some(acc)
}

/// Parses `v` as `str::parse::<u64>` does.
pub fn parse_u64(v: &[char]) -> (r: Option<u64>)
    ensures
        match r {
            Some(x) => parsed_u64(v@) == Some(x as int),
            None => parsed_u64(v@) is None,
        },
{
    if v.len() > 0 && v[0] == '+' {
        assert(v@.skip(1) =~= v@.drop_first());
        digits_u64(v, 1)
    } else {
        assert(v@.skip(0) =~= v@);
        digits_u64(v, 0)
    }
}

/// Parses `v` as `str::parse::<i64>` does.
pub fn parse_i64(v: &[char]) -> (r: Option<i64>)
    ensures
        match r {
            Some(x) => parsed_i64(v@) == Some(x as int),
            None => parsed_i64(v@) is None,
        },
{
    if v.len() > 0 && v[0] == '-' {
        assert(v@.skip(1) =~= v@.drop_first());
        match digits_u64(v, 1) {
            Some(m) => if m <= 0x8000_0000_0000_0000u64 {
                if m == 0x8000_0000_0000_0000u64 {
                    Some(i64::MIN)
                } else {
                    Some(-(m as i64))
                }
            } else {
                None
            },
            None => None,
        }
    } else {
        let from: usize = if v.len() > 0 && v[0] == '+' { 1 } else { 0 };
        assert(v@.skip(1) =~= v@.drop_first());
        assert(v@.skip(0) =~= v@);
        match digits_u64(v, from) {
            Some(m) => if m <= 0x7fff_ffff_ffff_ffffu64 {
                Some(m as i64)
            } else {
                None
            },
            None => None,
        }
    }
}

/// Parses `v` as `str::parse::<i32>` does.
pub fn parse_i32(v: &[char]) -> (r: Option<i32>)
    ensures
        match r {
            Some(x) => parsed_i32(v@) == Some(x as int),
            None => parsed_i32(v@) is None,
        },
{
    match parse_i64(v) {
        Some(x) => if i32::MIN as i64 <= x && x <= i32::MAX as i64 {
            Some(x as i32)
        } else {
            None
        },
        None => {
            proof {
                if decimal_value(v@, true) is Some {
                    let w = decimal_value(v@, true)->0;
                    assert(!(i64::MIN <= w <= i64::MAX));
                }
            }
            None
        },
    }
}

/// The ASCII digit for `d` (0 to 9).
pub open spec fn digit_char(d: int) -> char {
    (d + '0' as int) as char
}

/// The decimal representation of `n`, without leading zeros.
pub open spec fn decimal(n: nat) -> Seq<char>
    decreases n,
{
    if n < 10 {
        seq![digit_char(n as int)]
    } else {
        decimal(n / 10).push(digit_char((n % 10) as int))
    }
}

/// Reading back the decimal representation of `n` gives `n`: it is a
/// non-empty run of digits whose value is `n`.
pub proof fn lemma_decimal_digits(n: nat)
    ensures
        is_digit_run(decimal(n)),
        digits_value(decimal(n)) == n,
    decreases n,
{
    if n < 10 {
        let c = digit_char(n as int);
        assert(c as int == n + 48);
        assert(decimal(n).drop_last() =~= Seq::<char>::empty());
        assert(digits_value(decimal(n)) == digits_value(decimal(n).drop_last()) * 10 + (
        decimal(n).last() as int - '0' as int));
    } else {
        lemma_decimal_digits(n / 10);
        let c = digit_char((n % 10) as int);
        assert(c as int == n % 10 + 48);
        assert(decimal(n).drop_last() =~= decimal(n / 10));
        assert(digits_value(decimal(n)) == digits_value(decimal(n).drop_last()) * 10 + (
        decimal(n).last() as int - '0' as int));
        assert((n / 10) * 10 + n % 10 == n) by (nonlinear_arith);
        assert forall|i: int| 0 <= i < decimal(n).len() implies is_digit(#[trigger] decimal(n)[i]) by {
            if i < decimal(n).len() - 1 {
                assert(decimal(n)[i] == decimal(n / 10)[i]);
            }
        }
    }
}

/// `parse` reads the decimal representation of a number back as that
/// number, for every type that holds it.
pub proof fn lemma_decimal_parses(n: nat)
    ensures
        n <= u64::MAX ==> parsed_u64(decimal(n)) == Some(n as int),
        n <= i64::MAX ==> parsed_i64(decimal(n)) == Some(n as int),
        n <= i32::MAX ==> parsed_i32(decimal(n)) == Some(n as int),
        !decimal(n).contains('-'),
{
    lemma_decimal_digits(n);
    let d = decimal(n);
    assert(is_digit(d[0]));
    if d.contains('-') {
        let i = choose|i: int| 0 <= i < d.len() && d[i] == '-';
        assert(is_digit(d[i]));
    }
}

/// The decimal representation of the integer `n`, with a `-` sign where it
/// is negative, as `to_string` writes it.
pub open spec fn signed_decimal(n: int) -> Seq<char> {
    if n >= 0 {
        decimal(n as nat)
    } else {
        seq!['-'] + decimal((-n) as nat)
    }
}

/// `n` written with at least two digits, as the format `{:02}` writes it.
pub open spec fn two_digits(n: int) -> Seq<char> {
    if 0 <= n < 10 {
        seq!['0'] + decimal(n as nat)
    } else {
        signed_decimal(n)
    }
}

/// The ASCII digit for `d`.
fn digit_of(d: u8) -> (c: char)
    requires
        d < 10,
    ensures
        c == digit_char(d as int),
{
    match d {
        0 => '0',
        1 => '1',
        2 => '2',
        3 => '3',
        4 => '4',
        5 => '5',
        6 => '6',
        7 => '7',
        8 => '8',
        _ => '9',
    }
}

/// Appends the decimal digits of `n` to `out`.
fn push_decimal(n: u64, out: &mut String)
    ensures
        final(out)@ == old(out)@ + decimal(n as nat),
    decreases n,
{
    if n >= 10 {
        push_decimal(n / 10, out);
    }
    let c = digit_of((n % 10) as u8);
    crate::text::push_char(out, c);
    proof {
        if n >= 10 {
            assert(decimal(n as nat) == decimal((n / 10) as nat).push(digit_char((n % 10) as int)));
        }
    }
}

/// The decimal representation of `n`.
pub fn u64_to_string(n: u64) -> (r: String)
    ensures
        r@ == decimal(n as nat),
{
    let mut s = String::new();
    push_decimal(n, &mut s);
    assert(s@ =~= decimal(n as nat));
    s
}

/// The decimal representation of `n`, signed.
pub fn i64_to_string(n: i64) -> (r: String)
    ensures
        r@ == signed_decimal(n as int),
{
    let mut s = String::new();
    if n >= 0 {
        push_decimal(n as u64, &mut s);
        assert(s@ =~= decimal(n as nat));
    } else {
        crate::text::push_char(&mut s, '-');
        let m: u64 = if n == i64::MIN {
            0x8000_0000_0000_0000u64
        } else {
            (-n) as u64
        };
        push_decimal(m, &mut s);
        assert(s@ =~= seq!['-'] + decimal((-n) as nat));
    }
    s
}

/// The decimal representation of `n`, signed.
pub fn i32_to_string(n: i32) -> (r: String)
    ensures
        r@ == signed_decimal(n as int),
{
    i64_to_string(n as i64)
}

/// The non-negative `n` with at least two digits, as `format!("{:02}", n)`
/// writes it.
pub fn two_digit_string_u64(n: u64) -> (r: String)
    ensures
        r@ == two_digits(n as int),
{
    let mut s = String::new();
    if n < 10 {
        crate::text::push_char(&mut s, '0');
    }
    push_decimal(n, &mut s);
    proof {
        if n < 10 {
            assert(s@ =~= seq!['0'] + decimal(n as nat));
        } else {
            assert(s@ =~= decimal(n as nat));
        }
    }
    s
}

/// `n` with at least two digits, as `format!("{:02}", n)` writes it.
pub fn two_digit_string(n: i64) -> (r: String)
    ensures
        r@ == two_digits(n as int),
{
    if 0 <= n && n < 10 {
        let mut s = String::new();
        crate::text::push_char(&mut s, '0');
        push_decimal(n as u64, &mut s);
        assert(s@ =~= seq!['0'] + decimal(n as nat));
        s
    } else {
        i64_to_string(n)
    }
}

} // verus!
