//! Decimal text of integers and of fixed-point values, and parsing of
//! decimal integers.
use vstd::prelude::*;
use crate::text::text_concat;

verus! {

/// The character of decimal digit `d` (`0 <= d < 10`).
pub open spec fn digit_char(d: int) -> char {
    if d == 0 {
        '0'
    } else if d == 1 {
        '1'
    } else if d == 2 {
        '2'
    } else if d == 3 {
        '3'
    } else if d == 4 {
        '4'
    } else if d == 5 {
        '5'
    } else if d == 6 {
        '6'
    } else if d == 7 {
        '7'
    } else if d == 8 {
        '8'
    } else {
        '9'
    }
}

/// The decimal digits of `n`, without leading zeros.
pub open spec fn decimal(n: nat) -> Seq<char>
    decreases n,
{
    if n < 10 {
        seq![digit_char(n as int)]
    } else {
        decimal(n / 10) + seq![digit_char((n % 10) as int)]
    }
}

/// The decimal text of a signed integer.
pub open spec fn signed_decimal(v: int) -> Seq<char> {
    if v < 0 {
        seq!['-'] + decimal((-v) as nat)
    } else {
        decimal(v as nat)
    }
}

/// The digits of a fraction in thousandths (`0 < f < 1000`), without
/// trailing zeros.
pub open spec fn milli_fraction(f: int) -> Seq<char> {
    let d1 = digit_char(f / 100);
    let d2 = digit_char((f / 10) % 10);
    let d3 = digit_char(f % 10);
    if f % 100 == 0 {
        seq![d1]
    } else if f % 10 == 0 {
        seq![d1, d2]
    } else {
        seq![d1, d2, d3]
    }
}

/// The shortest decimal text of `v / 1000`: `1500` is `1.5`, `2000` is `2`.
pub open spec fn milli_decimal(v: nat) -> Seq<char> {
    if v % 1000 == 0 {
        decimal(v / 1000)
    } else {
        decimal(v / 1000) + seq!['.'] + milli_fraction((v % 1000) as int)
    }
}

pub open spec fn is_digit(c: char) -> bool {
    '0' <= c && c <= '9'
}

pub open spec fn digit_value(c: char) -> int {
    c as int - '0' as int
}

/// The value of a string of decimal digits.
pub open spec fn digits_value(s: Seq<char>) -> int
    decreases s.len(),
{
    if s.len() == 0 {
        0
    } else {
        digits_value(s.drop_last()) * 10 + digit_value(s.last())
    }
}

pub open spec fn all_digits(s: Seq<char>) -> bool {
    forall|i: int| 0 <= i < s.len() ==> is_digit(#[trigger] s[i])
}

/// The text after an optional leading sign.
pub open spec fn unsigned_part(s: Seq<char>) -> Seq<char> {
    if s.len() > 0 && (s[0] == '-' || s[0] == '+') {
        s.drop_first()
    } else {
        s
    }
}

/// A decimal `i32`, as `str::parse` reads one: an optional `+` or `-`, then
/// at least one digit, and a value in range.
pub open spec fn parsed_i32(s: Seq<char>) -> Option<int> {
    let neg = s.len() > 0 && s[0] == '-';
    let body = unsigned_part(s);
    let v = if neg {
        -digits_value(body)
    } else {
        digits_value(body)
    };
    if body.len() == 0 || !all_digits(body) {
        None
    } else if v < i32::MIN || v > i32::MAX {
        None
    } else {
        Some(v)
    }
}

fn digit_string(d: u64) -> (r: String)
    requires
        d < 10,
    ensures
        r@ == seq![digit_char(d as int)],
{
    let s = if d == 0 {
        "0"
    } else if d == 1 {
        "1"
    } else if d == 2 {
        "2"
    } else if d == 3 {
        "3"
    } else if d == 4 {
        "4"
    } else if d == 5 {
        "5"
    } else if d == 6 {
        "6"
    } else if d == 7 {
        "7"
    } else if d == 8 {
        "8"
    } else {
        "9"
    };
    proof {
        reveal_strlit("0");
        reveal_strlit("1");
        reveal_strlit("2");
        reveal_strlit("3");
        reveal_strlit("4");
        reveal_strlit("5");
        reveal_strlit("6");
        reveal_strlit("7");
        reveal_strlit("8");
        reveal_strlit("9");
    }
    let r = String::from_str(s);
    assert(r@ =~= seq![digit_char(d as int)]);
    r
}

/// The decimal text of `n`.
pub fn decimal_string(n: u64) -> (r: String)
    ensures
        r@ == decimal(n as nat),
    decreases n,
{
    if n < 10 {
        digit_string(n)
    } else {
        let head = decimal_string(n / 10);
        let tail = digit_string(n % 10);
        text_concat(head.as_str(), tail.as_str())
    }
}

/// The decimal text of a signed integer.
pub fn signed_string(v: i64) -> (r: String)
    ensures
        r@ == signed_decimal(v as int),
{
    if v < 0 {
        let m: u64 = if v == i64::MIN {
            9223372036854775808u64
        } else {
            (-v) as u64
        };
        let d = decimal_string(m);
        proof {
            reveal_strlit("-");
        }
        let r = text_concat("-", d.as_str());
        assert(r@ =~= seq!['-'] + decimal((-v) as nat));
        r
    } else {
        decimal_string(v as u64)
    }
}

/// The shortest decimal text of `v` thousandths.
pub fn milli_string(v: u64) -> (r: String)
    ensures
        r@ == milli_decimal(v as nat),
{
    let whole = decimal_string(v / 1000);
    let f = v % 1000;
    if f == 0 {
        return whole;
    }
    let d1 = digit_string(f / 100);
    let d2 = digit_string((f / 10) % 10);
    let d3 = digit_string(f % 10);
    proof {
        reveal_strlit(".");
    }
    let a = text_concat(whole.as_str(), ".");
    let b = text_concat(a.as_str(), d1.as_str());
    let r = if f % 100 == 0 {
        b
    } else if f % 10 == 0 {
        text_concat(b.as_str(), d2.as_str())
    } else {
        let c = text_concat(b.as_str(), d2.as_str());
        text_concat(c.as_str(), d3.as_str())
    };
    assert(r@ =~= milli_decimal(v as nat));
    r
}

proof fn lemma_digits_nonneg(s: Seq<char>)
    requires
        forall|i: int| 0 <= i < s.len() ==> is_digit(#[trigger] s[i]),
    ensures
        digits_value(s) >= 0,
    decreases s.len(),
{
    if s.len() > 0 {
        assert forall|i: int| 0 <= i < s.drop_last().len() implies is_digit(#[trigger] s.drop_last()[i]) by {
            assert(s.drop_last()[i] == s[i]);
        }
        lemma_digits_nonneg(s.drop_last());
    }
}

/// Reads a decimal `i32` as `str::parse::<i32>` does.
pub fn parse_i32(s: &str) -> (r: Option<i32>)
    ensures
        r matches Some(v) ==> parsed_i32(s@) == Some(v as int),
        r is None ==> parsed_i32(s@) is None,
{
    let n = s.unicode_len();
    if n == 0 {
        return None;
    }
    let c0 = s.get_char(0);
    let neg = c0 == '-';
    let start: usize = if c0 == '-' || c0 == '+' { 1 } else { 0 };
    let ghost body = unsigned_part(s@);
    assert(body =~= s@.subrange(start as int, n as int));
    if start >= n {
        return None;
    }
    let limit: i64 = 2147483648;
    let mut acc: i64 = 0;
    let mut big = false;
    let mut i: usize = start;
    while i < n
        invariant
            n == s@.len(),
            start <= i <= n,
            body == s@.subrange(start as int, n as int),
            body == unsigned_part(s@),
            neg == (s@[0] == '-'),
            n > 0,
            forall|k: int| start <= k < i ==> is_digit(#[trigger] s@[k]),
            !big ==> acc == digits_value(s@.subrange(start as int, i as int)),
            !big ==> 0 <= acc <= limit,
            big ==> digits_value(s@.subrange(start as int, i as int)) > limit,
            limit == 2147483648,
        decreases n - i,
    {
        let c = s.get_char(i);
        let ghost pre = s@.subrange(start as int, i as int);
        let ghost next = s@.subrange(start as int, i + 1);
        proof {
            assert(next.drop_last() =~= pre);
            assert(next.last() == c);
        }
        if !('0' <= c && c <= '9') {
            let ghost j: int = i - start;
            assert(0 <= j < body.len());
            assert(body[j] == s@[i as int]);
            assert(s@[i as int] == c);
            assert(!is_digit(body[j]));
            assert(!all_digits(body));
            assert(parsed_i32(s@) is None);
            return None;
        }
        let d = (c as u32 - '0' as u32) as i64;
        proof {
            assert forall|k: int| 0 <= k < pre.len() implies is_digit(#[trigger] pre[k]) by {
                assert(pre[k] == s@[start + k]);
            }
            lemma_digits_nonneg(pre);
        }
        if !big {
            let v = acc * 10 + d;
            if v > limit {
                big = true;
            } else {
                acc = v;
            }
        } else {
            proof {
                let pv = digits_value(pre);
                assert(pv * 10 + digit_value(c) > 2147483648) by (nonlinear_arith)
                    requires
                        pv > 2147483648,
                        digit_value(c) >= 0,
                ;
            }
        }
        i = i + 1;
    }
    proof {
        assert(s@.subrange(start as int, n as int) == body);
        assert forall|k: int| 0 <= k < body.len() implies is_digit(#[trigger] body[k]) by {
            assert(body[k] == s@[start + k]);
        }
    }
    if big {
        return None;
    }
    if neg {
        Some((-acc) as i32)
    } else if acc > 2147483647 {
        None
    } else {
        Some(acc as i32)
    }
}

} // verus!
