//! Decimal text of integers: writing unsigned counters and reading signed ones.

use vstd::prelude::*;

verus! {

pub open spec fn digit_char(d: nat) -> char {
    ((d + 48) as u8) as char
}

/// The shortest decimal text of `n`.
pub open spec fn decimal_text(n: nat) -> Seq<char>
    decreases n,
{
    if n < 10 {
        seq![digit_char(n)]
    } else {
        decimal_text(n / 10) + seq![digit_char(n % 10)]
    }
}

/// Writes `n` in decimal.
pub fn format_u64(n: u64) -> (r: String)
    ensures
        r@ == decimal_text(n as nat),
    decreases n,
{
    let d: u8 = (n % 10) as u8;
    let c: char = (d + 48) as char;
    let mut s = if n < 10 {
        String::new()
    } else {
        format_u64(n / 10)
    };
    let digit: [char; 1] = [c];
    let one = char_text(c);
    s.append(one.as_str());
    proof {
        if n < 10 {
            assert(s@ =~= seq![digit_char(n as nat)]);
        } else {
            assert(s@ =~= decimal_text((n / 10) as nat) + seq![digit_char((n % 10) as nat)]);
        }
    }
    s
}

/// The one-character string holding an ASCII digit.
fn char_text(c: char) -> (r: String)
    requires
        '0' <= c <= '9',
    ensures
        r@ == seq![c],
{
    let r = if c == '0' {
        "0"
    } else if c == '1' {
        "1"
    } else if c == '2' {
        "2"
    } else if c == '3' {
        "3"
    } else if c == '4' {
        "4"
    } else if c == '5' {
        "5"
    } else if c == '6' {
        "6"
    } else if c == '7' {
        "7"
    } else if c == '8' {
        "8"
    } else {
        "9"
    };
    proof {
        reveal_strlit("0");
        reveal_strlit("1");
        reveal_strlit("2");
        reveal_strlit("3");
        reveal_strlit("4");
        reveal_strlit("5");
        reveal_strlit("6");
        reveal_strlit("7");
        reveal_strlit("8");
        reveal_strlit("9");
    }
    r.to_string()
}

pub open spec fn is_digit(c: char) -> bool {
    '0' <= c && c <= '9'
}

pub open spec fn digits_value(s: Seq<char>) -> int
    decreases s.len(),
{
    if s.len() == 0 {
        0
    } else {
        digits_value(s.drop_last()) * 10 + (s.last() as int - 48)
    }
}

pub open spec fn all_digits(s: Seq<char>) -> bool {
    forall|i: int| 0 <= i < s.len() ==> is_digit(s[i])
}

/// What `str::parse::<i64>` accepts: an optional sign, then one or more ASCII
/// digits whose value fits in `i64`.
pub open spec fn parsed_i64(s: Seq<char>) -> Option<i64> {
    let signed = s.len() > 0 && (s[0] == '-' || s[0] == '+');
    let neg = s.len() > 0 && s[0] == '-';
    let body = if signed {
        s.drop_first()
    } else {
        s
    };
    if body.len() == 0 || !all_digits(body) {
        None
    } else {
        let v = if neg {
            -digits_value(body)
        } else {
            digits_value(body)
        };
        if i64::MIN <= v <= i64::MAX {
            Some(v as i64)
        } else {
            None
        }
    }
}

proof fn lemma_digits_grow(s: Seq<char>, i: int)
    requires
        0 <= i <= s.len(),
        forall|k: int| 0 <= k < s.len() ==> is_digit(s[k]),
    ensures
        digits_value(s) >= digits_value(s.subrange(0, i)),
        digits_value(s.subrange(0, i)) >= 0,
    decreases s.len(),
{
    if s.len() > 0 {
        if i == s.len() {
            assert(s.subrange(0, i) =~= s);
            lemma_digits_grow(s.drop_last(), 0);
        } else {
            lemma_digits_grow(s.drop_last(), i);
            assert(s.drop_last().subrange(0, i) =~= s.subrange(0, i));
        }
    } else {
        assert(s.subrange(0, i) =~= s);
    }
}

proof fn lemma_body_of(s: Seq<char>, start: int, body: Seq<char>)
    requires
        s.len() > 0,
        start == (if s[0] == '-' || s[0] == '+' { 1int } else { 0int }),
        start == 1 ==> body == s.drop_first(),
        start == 0 ==> body == s,
    ensures
        all_digits(body) ==> parsed_i64(s) == (if i64::MIN
            <= (if s[0] == '-' { -digits_value(body) } else { digits_value(body) }) <= i64::MAX
            && body.len() > 0 {
            Some((if s[0] == '-' { -digits_value(body) } else { digits_value(body) }) as i64)
        } else {
            None
        }),
        !all_digits(body) ==> parsed_i64(s) is None,
{
}

/// Reads a signed decimal integer as `str::parse::<i64>` does.
pub fn parse_i64(s: &str) -> (r: Option<i64>)
    ensures
        r == parsed_i64(s@),
{
    let n = s.unicode_len();
    if n == 0 {
        return None;
    }
    let first = s.get_char(0);
    let neg = first == '-';
    let start: usize = if first == '-' || first == '+' {
        1
    } else {
        0
    };
    let ghost body = s@.subrange(start as int, n as int);
    proof {
        if start == 1 {
            assert(body =~= s@.drop_first());
        } else {
            assert(body =~= s@);
        }
    }
    if start == n {
        return None;
    }
    let limit: i128 = 9223372036854775808;
    let mut acc: i128 = 0;
    let mut i: usize = start;
    while i < n
        invariant
            n == s@.len(),
            start <= i <= n,
            body == s@.subrange(start as int, n as int),
            forall|k: int| start <= k < i ==> is_digit(s@[k]),
            acc == digits_value(s@.subrange(start as int, i as int)),
            0 <= acc <= limit,
            limit == 9223372036854775808,
            n > 0,
            start == 1 ==> body == s@.drop_first(),
            start == 0 ==> body == s@,
            neg == (first == '-'),
            first == s@[0],
            start == (if first == '-' || first == '+' { 1usize } else { 0usize }),
        decreases n - i,
    {
        let c = s.get_char(i);
        if !('0' <= c && c <= '9') {
            proof {
                assert(body[i - start] == c);
                assert(!is_digit(body[i - start]));
                assert(!(forall|k: int| 0 <= k < body.len() ==> is_digit(body[k])));
                lemma_body_of(s@, start as int, body);
            }
            return None;
        }
        let ghost prev = s@.subrange(start as int, i as int);
        proof {
            assert(s@.subrange(start as int, i + 1).drop_last() =~= prev);
        }
        proof {
            assert(acc * 10 <= limit * 10) by (nonlinear_arith)
                requires
                    acc <= limit,
            ;
        }
        acc = acc * 10 + (c as u32 as i128 - 48);
        i = i + 1;
        if acc > limit {
            proof {
                assert forall|k: int| 0 <= k < i - start implies is_digit(body[k]) by {
                    assert(body[k] == s@[start + k]);
                }
                if forall|k: int| 0 <= k < body.len() ==> is_digit(body[k]) {
                    lemma_digits_grow(body, i - start);
                    assert(body.subrange(0, i - start) =~= s@.subrange(start as int, i as int));
                }
                lemma_body_of(s@, start as int, body);
            }
            return None;
        }
    }
    proof {
        assert(body =~= s@.subrange(start as int, i as int));
        assert forall|k: int| 0 <= k < body.len() implies is_digit(body[k]) by {
            assert(body[k] == s@[start + k]);
        }
    }
    if neg {
        Some((0 - acc) as i64)
    } else if acc == limit {
        None
    } else {
        Some(acc as i64)
    }
}

} // verus!

verus! {

/// Decimal text of a signed integer, with a leading `-` when negative.
pub open spec fn signed_text(n: int) -> Seq<char> {
    if n < 0 {
        "-"@ + decimal_text((-n) as nat)
    } else {
        decimal_text(n as nat)
    }
}

pub fn format_i64(n: i64) -> (r: String)
    ensures
        r@ == signed_text(n as int),
{
    if n < 0 {
        let magnitude: u64 = (0i128 - n as i128) as u64;
        let mut s = "-".to_string();
        let digits = format_u64(magnitude);
        s.append(digits.as_str());
        s
    } else {
        format_u64(n as u64)
    }
}

} // verus!
