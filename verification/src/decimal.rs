//! Unsigned decimal integers as `u64::from_str` reads them.
use vstd::prelude::*;

use crate::float_syntax::{all_digits, is_digit};

verus! {

/// The value of the decimal digit `c`.
pub open spec fn digit_value(c: char) -> nat {
    ((c as u32) - ('0' as u32)) as nat
}

/// The value of the digit string `s`.
pub open spec fn digits_value(s: Seq<char>) -> nat
    decreases s.len(),
{
    if s.len() == 0 {
        0
    } else {
        digits_value(s.drop_last()) * 10 + digit_value(s.last())
    }
}

/// What `u64::from_str` gives for `s`: an optional `+` followed by at least one digit, whose
/// value fits in a `u64`; anything else is an error.
pub open spec fn parse_u64_spec(s: Seq<char>) -> Option<u64> {
    let d = if s.len() > 0 && s[0] == '+' {
        s.drop_first()
    } else {
        s
    };
    if d.len() > 0 && all_digits(d) && digits_value(d) <= u64::MAX {
        Some(digits_value(d) as u64)
    } else {
        None
    }
}

proof fn lemma_digits_value_grows(s: Seq<char>, n: int)
    requires
        0 <= n <= s.len(),
    ensures
        digits_value(s.take(n)) <= digits_value(s),
    decreases s.len() - n,
{
    if n < s.len() {
        lemma_digits_value_grows(s, n + 1);
        assert(s.take(n + 1).drop_last() == s.take(n));
    } else {
        assert(s.take(n) == s);
    }
}

/// The value of the characters of `v` read as a `u64`, as `u64::from_str` reads them.
pub fn parse_u64(v: &[char]) -> (r: Option<u64>)
    ensures
        r == parse_u64_spec(v@),
{
    let n = v.len();
    let lo: usize = if n > 0 && v[0] == '+' {
        1
    } else {
        0
    };
    let ghost d = v@.subrange(lo as int, n as int);
    assert(d == (if v@.len() > 0 && v@[0] == '+' {
        v@.drop_first()
    } else {
        v@
    }));
    if lo == n {
        return None;
    }
    let mut value: u64 = 0;
    let mut k: usize = lo;
    while k < n
        invariant
            lo <= k <= n,
            n == v@.len(),
            d == v@.subrange(lo as int, n as int),
            d == (if v@.len() > 0 && v@[0] == '+' {
                v@.drop_first()
            } else {
                v@
            }),
            all_digits(d.take(k - lo)),
            value == digits_value(d.take(k - lo)),
        decreases n - k,
    {
        let c = v[k];
        let ghost j = k - lo;
        assert(d[j] == c);
        if !('0' <= c && c <= '9') {
            assert(!is_digit(d[j]));
            assert(!all_digits(d));
            return None;
        }
        assert(d.take(j + 1).drop_last() == d.take(j));
        let digit = (c as u32 - '0' as u32) as u64;
        assert(digit == digit_value(d[j]));
        assert(digits_value(d.take(j + 1)) == value * 10 + digit);
        let next = match value.checked_mul(10) {
            Some(t) => t.checked_add(digit),
            None => None,
        };
        match next {
            Some(t) => {
                value = t;
            },
            None => {
                proof {
                    lemma_digits_value_grows(d, j + 1);
                    assert(value * 10 + digit > u64::MAX);
                }
                return None;
            },
        }
        assert forall|i: int| 0 <= i < j + 1 implies is_digit(#[trigger] d.take(j + 1)[i]) by {
            if i < j {
                assert(d.take(j + 1)[i] == d.take(j)[i]);
            }
        }
        k = k + 1;
    }
    assert(d.take(n - lo) == d);
    Some(value)
}

/// A single digit reads as its value.
pub proof fn law_single_digit(c: char)
    requires
        '0' <= c && c <= '9',
    ensures
        parse_u64_spec(seq![c]) == Some(((c as u32) - 48) as u64),
{
    let d = seq![c];
    assert(d.drop_last() == Seq::<char>::empty());
    assert(digits_value(Seq::<char>::empty()) == 0);
    assert(d[0] != '+');
    assert(all_digits(d));
}

/// Appending a digit multiplies the value by ten and adds the digit, while the result fits in
/// a `u64`; past that the text is rejected.
pub proof fn law_append_digit(d: Seq<char>, c: char, n: u64)
    requires
        d.len() > 0,
        d[0] != '+',
        parse_u64_spec(d) == Some(n),
        '0' <= c && c <= '9',
    ensures
        n * 10 + ((c as u32) - 48) <= u64::MAX ==> parse_u64_spec(d.push(c)) == Some(
            (n * 10 + ((c as u32) - 48)) as u64,
        ),
        n * 10 + ((c as u32) - 48) > u64::MAX ==> parse_u64_spec(d.push(c)) is None,
{
    let e = d.push(c);
    assert(e.drop_last() == d);
    assert(e.last() == c);
    assert(e[0] == d[0]);
    assert(all_digits(e)) by {
        assert forall|i: int| 0 <= i < e.len() implies is_digit(#[trigger] e[i]) by {
            if i < d.len() {
                assert(e[i] == d[i]);
            }
        }
    }
}

/// One leading `+` is allowed and changes nothing.
pub proof fn law_plus_sign(d: Seq<char>)
    requires
        d.len() > 0,
        d[0] != '+',
    ensures
        parse_u64_spec(seq!['+'] + d) == parse_u64_spec(d),
{
    assert((seq!['+'] + d).drop_first() == d);
}

/// The empty string, a lone `+`, a second `+`, a minus sign, and whitespace or other
/// characters around the digits are rejected.
pub proof fn law_rejections(s: Seq<char>)
    ensures
        parse_u64_spec(Seq::<char>::empty()) is None,
        parse_u64_spec(seq!['+']) is None,
        s.len() > 0 && s[0] == '-' ==> parse_u64_spec(s) is None,
        s.len() > 1 && s[0] == '+' && s[1] == '+' ==> parse_u64_spec(s) is None,
        s.len() > 0 && !is_digit(s[0]) && s[0] != '+' ==> parse_u64_spec(s) is None,
        s.len() > 0 && !is_digit(s.last()) ==> parse_u64_spec(s) is None,
{
    assert(seq!['+'].drop_first().len() == 0);
    if s.len() > 1 && s[0] == '+' && s[1] == '+' {
        assert(s.drop_first()[0] == '+');
    }
    if s.len() > 0 && !is_digit(s.last()) {
        let d = if s[0] == '+' {
            s.drop_first()
        } else {
            s
        };
        if d.len() > 0 {
            assert(d[d.len() - 1] == s.last());
        }
    }
}

} // verus!
