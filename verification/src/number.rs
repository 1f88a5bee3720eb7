//! Decimal integer parsing with the grammar of `str::parse` for the integer
//! types: an optional sign, then one or more ASCII digits, nothing else.

use vstd::prelude::*;

verus! {

/// An ASCII decimal digit.
pub open spec fn is_decimal_digit(c: char) -> bool {
    '0' <= c && c <= '9'
}

/// The value of an ASCII decimal digit.
pub open spec fn digit_value(c: char) -> int {
    (c as int) - ('0' as int)
}

/// Every character of `s` is a decimal digit.
pub open spec fn all_decimal_digits(s: Seq<char>) -> bool {
    forall|i: int| 0 <= i < s.len() ==> is_decimal_digit(#[trigger] s[i])
}

/// The value of a string of decimal digits, most significant first.
pub open spec fn decimal_value(s: Seq<char>) -> int
    decreases s.len(),
{
    if s.len() == 0 {
        0
    } else {
        decimal_value(s.drop_last()) * 10 + digit_value(s.last())
    }
}

/// The integer that `s` writes in decimal: an optional `+` (or `-`, where
/// `allow_minus` holds) followed by at least one digit and nothing else.
/// The range of a concrete integer type is not applied here.
pub open spec fn decimal_integer(s: Seq<char>, allow_minus: bool) -> Option<int> {
    let negative = allow_minus && s.len() > 0 && s[0] == '-';
    let body = if s.len() > 0 && (s[0] == '+' || negative) {
        s.drop_first()
    } else {
        s
    };
    if body.len() == 0 || !all_decimal_digits(body) {
        None
    } else if negative {
        Some(-decimal_value(body))
    } else {
        Some(decimal_value(body))
    }
}

/// What `s.parse::<u64>().ok()` gives.
pub open spec fn spec_parse_u64(s: Seq<char>) -> Option<u64> {
    match decimal_integer(s, false) {
        Some(v) => if 0 <= v <= u64::MAX {
            Some(v as u64)
        } else {
            None
        },
        None => None,
    }
}

/// What `s.parse::<i64>().ok()` gives.
pub open spec fn spec_parse_i64(s: Seq<char>) -> Option<i64> {
    match decimal_integer(s, true) {
        Some(v) => if i64::MIN <= v <= i64::MAX {
            Some(v as i64)
        } else {
            None
        },
        None => None,
    }
}

/// What `s.parse::<i32>().ok()` gives.
pub open spec fn spec_parse_i32(s: Seq<char>) -> Option<i32> {
    match decimal_integer(s, true) {
        Some(v) => if i32::MIN <= v <= i32::MAX {
            Some(v as i32)
        } else {
            None
        },
        None => None,
    }
}

/// The value of a string of digits is never negative, and it never falls
/// when more digits are appended.
pub proof fn lemma_decimal_value_prefix(s: Seq<char>, k: int)
    requires
        all_decimal_digits(s),
        0 <= k <= s.len(),
    ensures
        0 <= decimal_value(s.take(k)) <= decimal_value(s),
    decreases s.len(),
{
    if s.len() > 0 {
        let t = s.drop_last();
        assert(all_decimal_digits(t)) by {
            assert forall|i: int| 0 <= i < t.len() implies is_decimal_digit(#[trigger] t[i]) by {
                assert(t[i] == s[i]);
            }
        }
        assert(is_decimal_digit(s[s.len() - 1]));
        if k == s.len() {
            assert(s.take(k) =~= s);
            lemma_decimal_value_prefix(t, t.len() as int);
            assert(t.take(t.len() as int) =~= t);
        } else {
            lemma_decimal_value_prefix(t, k);
            assert(t.take(k) =~= s.take(k));
            lemma_decimal_value_prefix(t, t.len() as int);
            assert(t.take(t.len() as int) =~= t);
        }
    } else {
        assert(s.take(k) =~= s);
    }
}

/// The ASCII character of a decimal digit.
pub open spec fn digit_char(d: int) -> char {
    if d == 0 {
        '0'
    } else if d == 1 {
        '1'
    } else if d == 2 {
        '2'
    } else if d == 3 {
        '3'
    } else if d == 4 {
        '4'
    } else if d == 5 {
        '5'
    } else if d == 6 {
        '6'
    } else if d == 7 {
        '7'
    } else if d == 8 {
        '8'
    } else {
        '9'
    }
}

/// How `n` is written in decimal, without sign or leading zeros.
pub open spec fn decimal_text(n: nat) -> Seq<char>
    decreases n,
{
    if n < 10 {
        seq![digit_char(n as int)]
    } else {
        decimal_text(n / 10).push(digit_char((n % 10) as int))
    }
}

/// How `v` is written in decimal, with a `-` before a negative number.
pub open spec fn signed_decimal_text(v: int) -> Seq<char> {
    if v < 0 {
        seq!['-'] + decimal_text((-v) as nat)
    } else {
        decimal_text(v as nat)
    }
}

proof fn lemma_digit_char(d: int)
    requires
        0 <= d < 10,
    ensures
        is_decimal_digit(digit_char(d)),
        digit_value(digit_char(d)) == d,
{
}

/// The decimal writing of `n` is a non-empty string of digits whose value
/// is `n`.
pub proof fn lemma_decimal_text(n: nat)
    ensures
        decimal_text(n).len() >= 1,
        all_decimal_digits(decimal_text(n)),
        decimal_value(decimal_text(n)) == n,
    decreases n,
{
    if n >= 10 {
        lemma_digit_char((n % 10) as int);
        lemma_decimal_text(n / 10);
        let t = decimal_text(n / 10);
        let u = t.push(digit_char((n % 10) as int));
        assert(u.drop_last() =~= t);
        assert forall|i: int| 0 <= i < u.len() implies is_decimal_digit(#[trigger] u[i]) by {
            if i < t.len() {
                assert(u[i] == t[i]);
            }
        }
        assert(decimal_text(n) == u);
        assert(u.last() == digit_char((n % 10) as int));
        assert(decimal_value(u) == decimal_value(t) * 10 + digit_value(u.last()));
        assert(n == (n / 10) * 10 + n % 10);
    } else {
        lemma_digit_char(n as int);
        let u = decimal_text(n);
        assert(u.drop_last() =~= Seq::<char>::empty());
        assert(decimal_value(u) == decimal_value(u.drop_last()) * 10 + digit_value(u.last()));
    }
}

/// Every `u64` written in decimal, with or without a leading `+`, reads
/// back as itself.
pub proof fn lemma_parse_u64_decimal_text(n: u64)
    ensures
        spec_parse_u64(decimal_text(n as nat)) == Some(n),
        spec_parse_u64(seq!['+'] + decimal_text(n as nat)) == Some(n),
{
    lemma_decimal_text(n as nat);
    let t = decimal_text(n as nat);
    assert(is_decimal_digit(t[0]));
    assert((seq!['+'] + t).drop_first() =~= t);
}

/// A text holding a character that is not a digit, other than a leading
/// `+`, is no `u64`; neither is the empty text.
pub proof fn lemma_parse_u64_rejects_non_digit(s: Seq<char>, i: int)
    requires
        0 <= i < s.len(),
        !is_decimal_digit(s[i]),
        !(i == 0 && s[0] == '+'),
    ensures
        spec_parse_u64(s) is None,
        spec_parse_u64(Seq::<char>::empty()) is None,
{
    if s[0] == '+' {
        assert(s.drop_first()[i - 1] == s[i]);
    }
}

/// A number above `u64::MAX` written in decimal is no `u64`.
pub proof fn lemma_parse_u64_too_large(n: nat)
    requires
        n > u64::MAX,
    ensures
        spec_parse_u64(decimal_text(n)) is None,
{
    lemma_decimal_text(n);
    assert(is_decimal_digit(decimal_text(n)[0]));
}

/// Every `i64` written in decimal reads back as itself.
pub proof fn lemma_parse_i64_decimal_text(v: i64)
    ensures
        spec_parse_i64(signed_decimal_text(v as int)) == Some(v),
{
    if v < 0 {
        lemma_decimal_text((-v) as nat);
        let t = decimal_text((-v) as nat);
        assert((seq!['-'] + t).drop_first() =~= t);
        assert((seq!['-'] + t)[0] == '-');
    } else {
        lemma_decimal_text(v as nat);
        let t = decimal_text(v as nat);
        assert(is_decimal_digit(t[0]));
    }
}

/// Every `i32` written in decimal reads back as itself.
pub proof fn lemma_parse_i32_decimal_text(v: i32)
    ensures
        spec_parse_i32(signed_decimal_text(v as int)) == Some(v),
{
    if v < 0 {
        lemma_decimal_text((-v) as nat);
        let t = decimal_text((-v) as nat);
        assert((seq!['-'] + t).drop_first() =~= t);
        assert((seq!['-'] + t)[0] == '-');
    } else {
        lemma_decimal_text(v as nat);
        let t = decimal_text(v as nat);
        assert(is_decimal_digit(t[0]));
    }
}

/// Reads the digits `s[start..]` as a number no larger than `limit`.
fn parse_magnitude(s: &str, start: usize, len: usize, limit: u64) -> (r: Option<u64>)
    requires
        len == s@.len(),
        start <= len,
    ensures
        match r {
            Some(v) => all_decimal_digits(s@.subrange(start as int, len as int))
                && v == decimal_value(s@.subrange(start as int, len as int)) && v <= limit,
            None => !all_decimal_digits(s@.subrange(start as int, len as int))
                || decimal_value(s@.subrange(start as int, len as int)) > limit,
        },
{
    let mut v: u64 = 0;
    let mut i: usize = start;
    assert(s@.subrange(start as int, start as int) =~= Seq::<char>::empty());
    while i < len
        invariant
            start <= i <= len,
            len == s@.len(),
            all_decimal_digits(s@.subrange(start as int, i as int)),
            v == decimal_value(s@.subrange(start as int, i as int)),
            v <= limit,
        decreases len - i,
    {
        let c = s.get_char(i);
        let ghost whole = s@.subrange(start as int, len as int);
        let ghost next = s@.subrange(start as int, i + 1);
        if c < '0' || c > '9' {
            assert(whole[i - start] == c);
            assert(!is_decimal_digit(whole[i - start]));
            return None;
        }
        let d: u64 = (c as u32 - '0' as u32) as u64;
        assert(next.drop_last() =~= s@.subrange(start as int, i as int));
        assert(next.last() == c);
        assert(all_decimal_digits(next)) by {
            assert forall|j: int| 0 <= j < next.len() implies is_decimal_digit(#[trigger] next[j]) by {
                if j < next.len() - 1 {
                    assert(next[j] == s@.subrange(start as int, i as int)[j]);
                }
            }
        }
        assert(decimal_value(next) == v * 10 + d);
        if v > limit / 10 || (v == limit / 10 && d > limit % 10) {
            assert(v * 10 + d > limit) by (nonlinear_arith)
                requires
                    v > limit / 10 || (v == limit / 10 && d > limit % 10),
                    d <= 9,
            ;
            proof {
                if all_decimal_digits(whole) {
                    lemma_decimal_value_prefix(whole, i + 1 - start);
                    assert(whole.take(i + 1 - start) =~= next);
                }
            }
            return None;
        }
        assert(v * 10 + d <= limit) by (nonlinear_arith)
            requires
                v <= limit / 10,
                v < limit / 10 || d <= limit % 10,
                d <= 9,
        ;
        v = v * 10 + d;
        i = i + 1;
    }
    Some(v)
}

/// Parses an unsigned 64-bit integer as `str::parse::<u64>` does.
pub fn parse_u64(s: &str) -> (r: Option<u64>)
    ensures
        r == spec_parse_u64(s@),
{
    let len = s.unicode_len();
    if len == 0 {
        return None;
    }
    let start: usize = if s.get_char(0) == '+' {
        1
    } else {
        0
    };
    assert(s@.subrange(start as int, len as int) =~= (if start == 1 {
        s@.drop_first()
    } else {
        s@
    }));
    if start == len {
        return None;
    }
    parse_magnitude(s, start, len, u64::MAX)
}

/// Parses a signed 64-bit integer as `str::parse::<i64>` does.
pub fn parse_i64(s: &str) -> (r: Option<i64>)
    ensures
        r == spec_parse_i64(s@),
{
    let len = s.unicode_len();
    if len == 0 {
        return None;
    }
    let first = s.get_char(0);
    let start: usize = if first == '+' || first == '-' {
        1
    } else {
        0
    };
    assert(s@.subrange(start as int, len as int) =~= (if start == 1 {
        s@.drop_first()
    } else {
        s@
    }));
    if start == len {
        return None;
    }
    if first == '-' {
        match parse_magnitude(s, start, len, 9223372036854775808u64) {
            Some(m) => if m == 9223372036854775808u64 {
                Some(i64::MIN)
            } else {
                Some(0i64 - (m as i64))
            },
            None => None,
        }
    } else {
        match parse_magnitude(s, start, len, 9223372036854775807u64) {
            Some(m) => Some(m as i64),
            None => None,
        }
    }
}

/// Parses a signed 32-bit integer as `str::parse::<i32>` does.
pub fn parse_i32(s: &str) -> (r: Option<i32>)
    ensures
        r == spec_parse_i32(s@),
{
    let len = s.unicode_len();
    if len == 0 {
        return None;
    }
    let first = s.get_char(0);
    let start: usize = if first == '+' || first == '-' {
        1
    } else {
        0
    };
    assert(s@.subrange(start as int, len as int) =~= (if start == 1 {
        s@.drop_first()
    } else {
        s@
    }));
    if start == len {
        return None;
    }
    if first == '-' {
        match parse_magnitude(s, start, len, 2147483648u64) {
            Some(m) => if m == 2147483648u64 {
                Some(i32::MIN)
            } else {
                Some(0i32 - (m as i32))
            },
            None => None,
        }
    } else {
        match parse_magnitude(s, start, len, 2147483647u64) {
            Some(m) => Some(m as i32),
            None => None,
        }
    }
}

} // verus!
