//! The syntax of decimal floating-point literals that `f64::from_str` accepts.
//!
//! Its documented grammar, applied to the lowercased string, is
//! `Sign? ('inf' | 'infinity' | 'nan' | Number)` where
//! `Number ::= (Digit+ | Digit+ '.' Digit* | Digit* '.' Digit+) Exp?`,
//! `Exp ::= 'e' Sign? Digit+`, `Sign ::= [+-]` and `Digit ::= [0-9]`.
use vstd::prelude::*;

verus! {

pub open spec fn is_digit(c: char) -> bool {
    '0' <= c && c <= '9'
}

pub open spec fn is_sign(c: char) -> bool {
    c == '+' || c == '-'
}

pub open spec fn is_exp_marker(c: char) -> bool {
    c == 'e' || c == 'E'
}

/// ASCII lowercase of `c`.
pub open spec fn ascii_lower(c: char) -> char {
    if 'A' <= c && c <= 'Z' {
        ((c as u32) + 32) as char
    } else {
        c
    }
}

pub open spec fn all_digits(s: Seq<char>) -> bool {
    forall|i: int| 0 <= i < s.len() ==> is_digit(#[trigger] s[i])
}

/// `s` without one leading sign, if it has one.
pub open spec fn unsigned_part(s: Seq<char>) -> Seq<char> {
    if s.len() > 0 && is_sign(s[0]) {
        s.drop_first()
    } else {
        s
    }
}

/// `s`, lowercased, is `inf`, `infinity` or `nan`.
pub open spec fn is_special(s: Seq<char>) -> bool {
    let l = s.map_values(|c: char| ascii_lower(c));
    ||| l == seq!['i', 'n', 'f']
    ||| l == seq!['i', 'n', 'f', 'i', 'n', 'i', 't', 'y']
    ||| l == seq!['n', 'a', 'n']
}

/// Number of decimal points in `s`.
pub open spec fn point_count(s: Seq<char>) -> nat
    decreases s.len(),
{
    if s.len() == 0 {
        0
    } else {
        point_count(s.drop_last()) + if s.last() == '.' {
            1nat
        } else {
            0nat
        }
    }
}

/// Digits with at most one decimal point among them and at least one digit.
pub open spec fn is_mantissa(m: Seq<char>) -> bool {
    &&& forall|i: int| 0 <= i < m.len() ==> is_digit(#[trigger] m[i]) || m[i] == '.'
    &&& point_count(m) <= 1
    &&& m.len() > point_count(m)
}

/// What follows the exponent marker: an optional sign and at least one digit.
pub open spec fn is_exponent(x: Seq<char>) -> bool {
    let d = unsigned_part(x);
    d.len() > 0 && all_digits(d)
}

/// A `Number` of the grammar: a mantissa, optionally followed by an exponent.
pub open spec fn is_number(b: Seq<char>) -> bool {
    ||| is_mantissa(b)
    ||| exists|e: int|
        0 <= e < b.len() && is_exp_marker(#[trigger] b[e]) && is_mantissa(b.take(e))
            && is_exponent(b.skip(e + 1))
}

/// `s` is accepted by `f64::from_str`.
pub open spec fn is_float_literal(s: Seq<char>) -> bool {
    let u = unsigned_part(s);
    is_special(u) || is_number(u)
}

fn lower(c: char) -> (r: char)
    ensures
        r == ascii_lower(c),
{
    if 'A' <= c && c <= 'Z' {
        let u = (c as u32) + 32;
        // `u` is an ASCII lowercase letter.
        let r = char_from_ascii(u);
        r
    } else {
        c
    }
}

/// The ASCII character with code `u`.
fn char_from_ascii(u: u32) -> (c: char)
    requires
        u < 128,
    ensures
        c == u as char,
{
    (u as u8) as char
}

/// Whether `v[lo..hi]`, lowercased, equals `word`.
fn lower_equals(v: &[char], lo: usize, hi: usize, word: &[char]) -> (b: bool)
    requires
        lo <= hi <= v@.len(),
    ensures
        b == (v@.subrange(lo as int, hi as int).map_values(|c: char| ascii_lower(c)) == word@),
{
    let ghost l = v@.subrange(lo as int, hi as int).map_values(|c: char| ascii_lower(c));
    if hi - lo != word.len() {
        return false;
    }
    let mut k: usize = 0;
    while k < word.len()
        invariant
            lo <= hi <= v@.len(),
            hi - lo == word@.len(),
            l == v@.subrange(lo as int, hi as int).map_values(|c: char| ascii_lower(c)),
            k <= word@.len(),
            forall|m: int| 0 <= m < k ==> l[m] == word@[m],
        decreases word@.len() - k,
    {
        if lower(v[lo + k]) != word[k] {
            assert(l[k as int] != word@[k as int]);
            return false;
        }
        k = k + 1;
    }
    assert(l == word@);
    true
}

/// Whether `v[lo..hi]` is a mantissa.
fn mantissa(v: &[char], lo: usize, hi: usize) -> (b: bool)
    requires
        lo <= hi <= v@.len(),
    ensures
        b == is_mantissa(v@.subrange(lo as int, hi as int)),
{
    let ghost m = v@.subrange(lo as int, hi as int);
    let mut points: usize = 0;
    let mut k: usize = lo;
    while k < hi
        invariant
            lo <= k <= hi <= v@.len(),
            m == v@.subrange(lo as int, hi as int),
            points <= 1,
            points == point_count(m.take(k - lo)),
            forall|i: int| 0 <= i < k - lo ==> is_digit(#[trigger] m[i]) || m[i] == '.',
        decreases hi - k,
    {
        let c = v[k];
        assert(m.take(k - lo + 1).drop_last() == m.take(k - lo));
        if c == '.' {
            if points == 1 {
                proof {
                    lemma_point_count_prefix(m, k - lo + 1);
                }
                return false;
            }
            points = points + 1;
        } else if !('0' <= c && c <= '9') {
            assert(!(is_digit(m[k - lo]) || m[k - lo] == '.'));
            return false;
        }
        k = k + 1;
    }
    assert(m.take(hi - lo) == m);
    hi - lo > points
}

proof fn lemma_point_count_prefix(s: Seq<char>, n: int)
    requires
        0 <= n <= s.len(),
    ensures
        point_count(s.take(n)) <= point_count(s),
    decreases s.len() - n,
{
    if n < s.len() {
        lemma_point_count_prefix(s, n + 1);
        assert(s.take(n + 1).drop_last() == s.take(n));
    } else {
        assert(s.take(n) == s);
    }
}

/// Whether `v[lo..hi]` consists of digits only.
fn digits_only(v: &[char], lo: usize, hi: usize) -> (b: bool)
    requires
        lo <= hi <= v@.len(),
    ensures
        b == all_digits(v@.subrange(lo as int, hi as int)),
{
    let ghost d = v@.subrange(lo as int, hi as int);
    let mut k: usize = lo;
    while k < hi
        invariant
            lo <= k <= hi <= v@.len(),
            d == v@.subrange(lo as int, hi as int),
            forall|i: int| 0 <= i < k - lo ==> is_digit(#[trigger] d[i]),
        decreases hi - k,
    {
        let c = v[k];
        if !('0' <= c && c <= '9') {
            assert(!is_digit(d[k - lo]));
            return false;
        }
        k = k + 1;
    }
    true
}

/// Whether `v[lo..hi]` is an exponent (what follows the marker).
fn exponent(v: &[char], lo: usize, hi: usize) -> (b: bool)
    requires
        lo <= hi <= v@.len(),
    ensures
        b == is_exponent(v@.subrange(lo as int, hi as int)),
{
    let ghost x = v@.subrange(lo as int, hi as int);
    if lo < hi && (v[lo] == '+' || v[lo] == '-') {
        assert(x.drop_first() == v@.subrange(lo + 1, hi as int));
        lo + 1 < hi && digits_only(v, lo + 1, hi)
    } else {
        lo < hi && digits_only(v, lo, hi)
    }
}

/// Whether `v[lo..hi]` is a `Number` of the grammar.
fn number(v: &[char], lo: usize, hi: usize) -> (b: bool)
    requires
        lo <= hi <= v@.len(),
    ensures
        b == is_number(v@.subrange(lo as int, hi as int)),
{
    let ghost s = v@.subrange(lo as int, hi as int);
    let mut k: usize = lo;
    while k < hi && !(v[k] == 'e' || v[k] == 'E')
        invariant
            lo <= k <= hi <= v@.len(),
            s == v@.subrange(lo as int, hi as int),
            forall|i: int| 0 <= i < k - lo ==> !is_exp_marker(#[trigger] s[i]),
        decreases hi - k,
    {
        k = k + 1;
    }
    if k == hi {
        let b = mantissa(v, lo, hi);
        assert forall|e: int| 0 <= e < s.len() implies !is_exp_marker(#[trigger] s[e]) by {}
        b
    } else {
        let e = k - lo;
        assert(is_exp_marker(s[e as int]));
        assert(s.take(e as int) == v@.subrange(lo as int, k as int));
        assert(s.skip(e + 1) == v@.subrange(k + 1, hi as int));
        let whole = mantissa(v, lo, hi);
        let left = mantissa(v, lo, k);
        let right = exponent(v, k + 1, hi);
        proof {
            // the mantissa has no exponent marker, so the first marker is the only split point
            assert(!is_mantissa(s)) by {
                assert(!(is_digit(s[e as int]) || s[e as int] == '.'));
            }
            assert forall|f: int|
                0 <= f < s.len() && is_exp_marker(#[trigger] s[f]) && is_mantissa(s.take(f))
                implies f == e by {
                if f > e {
                    assert(s.take(f)[e as int] == s[e as int]);
                }
                if f < e {
                    assert(!is_exp_marker(s[f]));
                }
            }
        }
        left && right
    }
}

/// Whether the characters of `v` form a literal that `f64::from_str` accepts.
pub fn float_literal(v: &[char]) -> (b: bool)
    ensures
        b == is_float_literal(v@),
{
    let n = v.len();
    let lo: usize = if n > 0 && (v[0] == '+' || v[0] == '-') {
        1
    } else {
        0
    };
    assert(unsigned_part(v@) == v@.subrange(lo as int, n as int));
    let inf = ['i', 'n', 'f'];
    let infinity = ['i', 'n', 'f', 'i', 'n', 'i', 't', 'y'];
    let nan = ['n', 'a', 'n'];
    assert(inf@ == seq!['i', 'n', 'f']);
    assert(infinity@ == seq!['i', 'n', 'f', 'i', 'n', 'i', 't', 'y']);
    assert(nan@ == seq!['n', 'a', 'n']);
    let special = lower_equals(v, lo, n, &inf) || lower_equals(v, lo, n, &infinity)
        || lower_equals(v, lo, n, &nan);
    special || number(v, lo, n)
}

// ---------------------------------------------------------------------------------------------
// Laws
// ---------------------------------------------------------------------------------------------

proof fn lemma_point_count_concat(x: Seq<char>, y: Seq<char>)
    ensures
        point_count(x + y) == point_count(x) + point_count(y),
    decreases y.len(),
{
    if y.len() > 0 {
        lemma_point_count_concat(x, y.drop_last());
        assert((x + y).drop_last() == x + y.drop_last());
    } else {
        assert(x + y == x);
    }
}

proof fn lemma_digits_have_no_points(d: Seq<char>)
    requires
        forall|k: int| 0 <= k < d.len() ==> '0' <= #[trigger] d[k] && d[k] <= '9',
    ensures
        point_count(d) == 0,
    decreases d.len(),
{
    if d.len() > 0 {
        lemma_digits_have_no_points(d.drop_last());
    }
}

/// A non-empty run of digits is a literal, and so is it with a sign in front.
pub proof fn law_digit_runs_are_literals(d: Seq<char>)
    requires
        d.len() > 0,
        forall|k: int| 0 <= k < d.len() ==> '0' <= #[trigger] d[k] && d[k] <= '9',
    ensures
        is_float_literal(d),
        is_float_literal(seq!['-'] + d),
        is_float_literal(seq!['+'] + d),
{
    lemma_digits_have_no_points(d);
    assert((seq!['-'] + d).drop_first() == d);
    assert((seq!['+'] + d).drop_first() == d);
    assert(is_mantissa(d));
}

/// Digits with a decimal point among them, and at least one digit, are a literal: `4.2534`,
/// `5.` and `.5` all are.
pub proof fn law_decimal_fractions_are_literals(a: Seq<char>, b: Seq<char>)
    requires
        a.len() + b.len() > 0,
        forall|k: int| 0 <= k < a.len() ==> '0' <= #[trigger] a[k] && a[k] <= '9',
        forall|k: int| 0 <= k < b.len() ==> '0' <= #[trigger] b[k] && b[k] <= '9',
    ensures
        is_float_literal(a + seq!['.'] + b),
{
    let m = a + seq!['.'] + b;
    lemma_digits_have_no_points(a);
    lemma_digits_have_no_points(b);
    lemma_point_count_concat(a, seq!['.']);
    lemma_point_count_concat(a + seq!['.'], b);
    lemma_one_point();
    assert forall|i: int| 0 <= i < m.len() implies is_digit(#[trigger] m[i]) || m[i] == '.' by {
        if i < a.len() {
            assert(m[i] == a[i]);
        } else if i > a.len() {
            assert(m[i] == b[i - a.len() - 1]);
        }
    }
    assert(!is_sign(m[0])) by {
        if a.len() == 0 {
            assert(m[0] == '.');
        } else {
            assert(m[0] == a[0]);
        }
    }
    assert(is_mantissa(m));
}

/// A mantissa of digits followed by an exponent (`e` or `E`, an optional sign, digits) is a
/// literal: `2.5E10` in the form `25E-1`, `1e+5`.
pub proof fn law_exponents_are_literals(a: Seq<char>, b: Seq<char>, marker: char, sign: Seq<char>)
    requires
        a.len() > 0,
        b.len() > 0,
        forall|k: int| 0 <= k < a.len() ==> '0' <= #[trigger] a[k] && a[k] <= '9',
        forall|k: int| 0 <= k < b.len() ==> '0' <= #[trigger] b[k] && b[k] <= '9',
        marker == 'e' || marker == 'E',
        sign == Seq::<char>::empty() || sign == seq!['+'] || sign == seq!['-'],
    ensures
        is_float_literal(a + seq![marker] + sign + b),
{
    let s = a + seq![marker] + sign + b;
    lemma_digits_have_no_points(a);
    assert(s[0] == a[0]);
    assert(unsigned_part(s) == s);
    let e = a.len() as int;
    assert(s[e] == marker);
    assert(s.take(e) == a);
    assert(is_mantissa(a));
    assert(s.skip(e + 1) == sign + b);
    if sign.len() == 0 {
        assert(sign + b == b);
    } else {
        assert((sign + b).drop_first() == b);
    }
    assert(is_exponent(s.skip(e + 1)));
}

proof fn lemma_one_point()
    ensures
        point_count(seq!['.']) == 1,
{
    let p = seq!['.'];
    assert(p.len() == 1 && p.last() == '.');
    assert(p.drop_last() == Seq::<char>::empty());
    assert(point_count(Seq::<char>::empty()) == 0);
}

proof fn lemma_not_special_at(u: Seq<char>, k: int)
    requires
        0 <= k < u.len(),
        ascii_lower(u[k]) != 'i' && ascii_lower(u[k]) != 'n' && ascii_lower(u[k]) != 'f'
            && ascii_lower(u[k]) != 't' && ascii_lower(u[k]) != 'y' && ascii_lower(u[k]) != 'a',
    ensures
        !is_special(u),
{
    let l = u.map_values(|c: char| ascii_lower(c));
    assert(l.len() == u.len());
    assert(l[k] == ascii_lower(u[k]));
    let a = seq!['i', 'n', 'f'];
    let b = seq!['i', 'n', 'f', 'i', 'n', 'i', 't', 'y'];
    let c = seq!['n', 'a', 'n'];
    if l == a {
        assert(a[k] == l[k]);
        assert(a[0] == 'i' && a[1] == 'n' && a[2] == 'f' && a.len() == 3);
        assert(k < 3);
        if k == 0 {
        } else if k == 1 {
        } else {
        }
    }
    if l == b {
        assert(b[k] == l[k]);
        assert(b[0] == 'i' && b[1] == 'n' && b[2] == 'f' && b[3] == 'i' && b[4] == 'n' && b[5]
            == 'i' && b[6] == 't' && b[7] == 'y' && b.len() == 8);
        assert(k < 8);
        if k == 0 {
        } else if k == 1 {
        } else if k == 2 {
        } else if k == 3 {
        } else if k == 4 {
        } else if k == 5 {
        } else if k == 6 {
        } else {
        }
    }
    if l == c {
        assert(c[k] == l[k]);
        assert(c[0] == 'n' && c[1] == 'a' && c[2] == 'n' && c.len() == 3);
        assert(k < 3);
        if k == 0 {
        } else if k == 1 {
        } else {
        }
    }
}

proof fn lemma_empty_not_literal()
    ensures
        !is_float_literal(Seq::<char>::empty()),
{
    let z = Seq::<char>::empty();
    assert(unsigned_part(z) == z);
    assert(z.map_values(|c: char| ascii_lower(c)).len() == 0);
    assert(seq!['i', 'n', 'f'].len() == 3);
    assert(seq!['n', 'a', 'n'].len() == 3);
    assert(seq!['i', 'n', 'f', 'i', 'n', 'i', 't', 'y'].len() == 8);
    assert(!is_special(z));
}

/// The empty string, a lone point, a lone sign, a doubled sign, and anything with a space at
/// either end are not literals.
pub proof fn law_not_literals(s: Seq<char>)
    ensures
        !is_float_literal(Seq::<char>::empty()),
        !is_float_literal(seq!['.']),
        !is_float_literal(seq!['-']),
        !is_float_literal(seq!['+', '-', '1']),
        s.len() > 0 && s[0] == ' ' ==> !is_float_literal(s),
        s.len() > 0 && s.last() == ' ' ==> !is_float_literal(s),
{
    lemma_one_point();
    lemma_empty_not_literal();
    assert(seq!['-'].drop_first() == Seq::<char>::empty());
    assert(!is_special(seq!['.'])) by {
        lemma_not_special_at(seq!['.'], 0);
    }
    let pm = seq!['+', '-', '1'];
    assert(pm.drop_first() == seq!['-', '1']);
    let u = seq!['-', '1'];
    assert(!is_mantissa(u)) by {
        assert(!(is_digit(u[0]) || u[0] == '.'));
    }
    assert forall|e: int| 0 <= e < u.len() implies !is_exp_marker(#[trigger] u[e]) by {}
    assert(!is_special(u)) by {
        lemma_not_special_at(u, 0);
    }
    if s.len() > 0 && s[0] == ' ' {
        assert(unsigned_part(s) == s);
        assert(!is_special(s)) by {
            lemma_not_special_at(s, 0);
        }
        assert(!is_mantissa(s)) by {
            assert(!(is_digit(s[0]) || s[0] == '.'));
        }
        assert forall|e: int|
            0 <= e < s.len() && is_exp_marker(#[trigger] s[e]) implies !is_mantissa(s.take(e)) by {
            assert(e > 0);
            assert(s.take(e)[0] == ' ');
        }
    }
    if s.len() > 0 && s.last() == ' ' {
        let u = unsigned_part(s);
        assert(u.len() > 0 && u.last() == ' ');
        assert(!is_special(u)) by {
            lemma_not_special_at(u, u.len() - 1);
        }
        assert(!is_mantissa(u)) by {
            assert(!(is_digit(u[u.len() - 1]) || u[u.len() - 1] == '.'));
        }
        assert forall|e: int|
            0 <= e < u.len() && is_exp_marker(#[trigger] u[e]) implies !is_exponent(
            u.skip(e + 1),
        ) by {
            let x = u.skip(e + 1);
            assert(x.len() > 0);
            assert(x.last() == ' ');
            let d = unsigned_part(x);
            if d.len() > 0 {
                assert(d[d.len() - 1] == ' ');
            }
        }
    }
}

/// `inf`, `infinity` and `nan` are literals in any letter case and with a sign.
pub proof fn law_special_values_are_literals()
    ensures
        is_float_literal(seq!['i', 'n', 'f']),
        is_float_literal(seq!['N', 'a', 'N']),
        is_float_literal(seq!['-', 'I', 'n', 'f', 'i', 'n', 'i', 't', 'y']),
        is_float_literal(seq!['+', 'i', 'N', 'f']),
        !is_float_literal(seq!['i', 'n', 'f', 'i', 'n']),
{
    let a = seq!['i', 'n', 'f'];
    assert(a.map_values(|c: char| ascii_lower(c)) == a);
    let b = seq!['N', 'a', 'N'];
    assert(ascii_lower('N') == 'n');
    assert(b.map_values(|c: char| ascii_lower(c)) == seq!['n', 'a', 'n']);
    let c = seq!['-', 'I', 'n', 'f', 'i', 'n', 'i', 't', 'y'];
    assert(ascii_lower('I') == 'i');
    assert(c.drop_first() == seq!['I', 'n', 'f', 'i', 'n', 'i', 't', 'y']);
    assert(c.drop_first().map_values(|c: char| ascii_lower(c)) == seq![
        'i',
        'n',
        'f',
        'i',
        'n',
        'i',
        't',
        'y',
    ]);
    let d = seq!['+', 'i', 'N', 'f'];
    assert(d.drop_first() == seq!['i', 'N', 'f']);
    assert(d.drop_first().map_values(|c: char| ascii_lower(c)) == a);
    let e = seq!['i', 'n', 'f', 'i', 'n'];
    assert(e.map_values(|c: char| ascii_lower(c)) == e);
    assert(!is_mantissa(e)) by {
        assert(!(is_digit(e[0]) || e[0] == '.'));
    }
    assert forall|k: int| 0 <= k < e.len() implies !is_exp_marker(#[trigger] e[k]) by {}
}

} // verus!
