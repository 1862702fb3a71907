//! Verified string utilities: decimal rendering and parsing of integers, a
//! prefix test, and character-level string building.

use vstd::prelude::*;
use vstd::string::*;

verus! {

/// The decimal digit character for `d` in `0 .. 10`.
pub open spec fn dec_digit(d: int) -> char {
    if d == 0 {
        '0'
    } else if d == 1 {
        '1'
    } else if d == 2 {
        '2'
    } else if d == 3 {
        '3'
    } else if d == 4 {
        '4'
    } else if d == 5 {
        '5'
    } else if d == 6 {
        '6'
    } else if d == 7 {
        '7'
    } else if d == 8 {
        '8'
    } else {
        '9'
    }
}

pub open spec fn is_digit(c: char) -> bool {
    '0' <= c && c <= '9'
}

pub open spec fn digit_val(c: char) -> int {
    c as int - '0' as int
}

pub open spec fn all_digits(s: Seq<char>) -> bool {
    forall|i: int| 0 <= i < s.len() ==> is_digit(#[trigger] s[i])
}

/// The numeric value of a digit string, most significant digit first.
pub open spec fn dec_val(s: Seq<char>) -> int
    decreases s.len(),
{
    if s.len() == 0 {
        0
    } else {
        dec_val(s.drop_last()) * 10 + digit_val(s.last())
    }
}

/// The decimal rendering of a non-negative integer, without sign or leading
/// zeros (except for the single digit of zero itself).
pub open spec fn u64_dec(n: int) -> Seq<char>
    decreases n,
{
    if n < 10 {
        seq![dec_digit(n)]
    } else {
        u64_dec(n / 10).push(dec_digit(n % 10))
    }
}

/// The decimal rendering of an integer: a `-` sign for negative values,
/// then the digits of the magnitude.
pub open spec fn i64_dec(n: int) -> Seq<char> {
    if n < 0 {
        seq!['-'] + u64_dec(-n)
    } else {
        u64_dec(n)
    }
}

pub proof fn lemma_u64_dec_digits(n: int)
    requires
        n >= 0,
    ensures
        u64_dec(n).len() >= 1,
        all_digits(u64_dec(n)),
    decreases n,
{
    if n >= 10 {
        lemma_u64_dec_digits(n / 10);
    }
}

pub proof fn lemma_digit_roundtrip(d: int)
    requires
        0 <= d < 10,
    ensures
        digit_val(dec_digit(d)) == d,
{
}

pub proof fn lemma_u64_dec_val(n: int)
    requires
        n >= 0,
    ensures
        dec_val(u64_dec(n)) == n,
    decreases n,
{
    lemma_digit_roundtrip(if n < 10 { n } else { n % 10 });
    if n < 10 {
        assert(u64_dec(n).drop_last() =~= Seq::<char>::empty());
        assert(dec_val(u64_dec(n)) == dec_val(Seq::<char>::empty()) * 10 + digit_val(dec_digit(n)));
    } else {
        lemma_u64_dec_val(n / 10);
        assert(u64_dec(n).drop_last() =~= u64_dec(n / 10));
        assert(u64_dec(n).last() == dec_digit(n % 10));
    }
}

/// Distinct integers render as distinct decimal strings.
pub proof fn lemma_i64_dec_injective(a: int, b: int)
    requires
        i64_dec(a) == i64_dec(b),
    ensures
        a == b,
{
    if a >= 0 && b >= 0 {
        lemma_u64_dec_val(a);
        lemma_u64_dec_val(b);
    } else if a < 0 && b < 0 {
        lemma_u64_dec_digits(-a);
        lemma_u64_dec_digits(-b);
        assert(i64_dec(a).skip(1) =~= u64_dec(-a));
        assert(i64_dec(b).skip(1) =~= u64_dec(-b));
        lemma_u64_dec_val(-a);
        lemma_u64_dec_val(-b);
    } else if a < 0 && b >= 0 {
        lemma_u64_dec_digits(-a);
        lemma_u64_dec_digits(b);
        assert(i64_dec(a)[0] == '-');
        assert(is_digit(i64_dec(b)[0]));
        assert(false);
    } else {
        lemma_u64_dec_digits(a);
        lemma_u64_dec_digits(-b);
        assert(i64_dec(b)[0] == '-');
        assert(is_digit(i64_dec(a)[0]));
        assert(false);
    }
}

/// A well-formed unsigned decimal string: at least one digit, digits only.
pub open spec fn dec_str_wf(s: Seq<char>) -> bool {
    s.len() >= 1 && all_digits(s)
}

/// A decimal string accepted as an `i64`: an optional leading `-`, then
/// digits, with the value in the range of `i64`.
pub open spec fn i64_str_wf(s: Seq<char>) -> bool {
    if s.len() >= 1 && s[0] == '-' {
        dec_str_wf(s.skip(1)) && -dec_val(s.skip(1)) >= i64::MIN
    } else {
        dec_str_wf(s) && dec_val(s) <= i64::MAX
    }
}

/// The value of a decimal string with an optional leading `-`.
pub open spec fn i64_str_val(s: Seq<char>) -> int {
    if s.len() >= 1 && s[0] == '-' {
        -dec_val(s.skip(1))
    } else {
        dec_val(s)
    }
}

pub open spec fn is_alphanumeric_char(c: char) -> bool {
    ('0' <= c && c <= '9') || ('a' <= c && c <= 'z') || ('A' <= c && c <= 'Z')
}

pub open spec fn is_lower_hex_char(c: char) -> bool {
    ('0' <= c && c <= '9') || ('a' <= c && c <= 'f')
}

/// Relies on std's `String::push`: appends one character at the end.
#[verifier::external_body]
pub fn push_char(s: &mut String, c: char)
    ensures
        final(s)@ == old(s)@.push(c),
{
    s.push(c)
}

/// The digit character for a value below ten.
pub fn digit_char(d: u64) -> (c: char)
    requires
        d < 10,
    ensures
        c == dec_digit(d as int),
{
    if d == 0 {
        '0'
    } else if d == 1 {
        '1'
    } else if d == 2 {
        '2'
    } else if d == 3 {
        '3'
    } else if d == 4 {
        '4'
    } else if d == 5 {
        '5'
    } else if d == 6 {
        '6'
    } else if d == 7 {
        '7'
    } else if d == 8 {
        '8'
    } else {
        '9'
    }
}

pub proof fn lemma_dec_val_nonneg(s: Seq<char>)
    requires
        all_digits(s),
    ensures
        dec_val(s) >= 0,
    decreases s.len(),
{
    if s.len() > 0 {
        assert(all_digits(s.drop_last())) by {
            assert(forall|i: int| 0 <= i < s.len() - 1 ==> s.drop_last()[i] == s[i]);
        }
        lemma_dec_val_nonneg(s.drop_last());
    }
}

/// The value of a digit string is at least the value of any of its prefixes.
pub proof fn lemma_dec_val_take_le(s: Seq<char>, k: int)
    requires
        all_digits(s),
        0 <= k <= s.len(),
    ensures
        dec_val(s.take(k)) <= dec_val(s),
    decreases s.len() - k,
{
    if k < s.len() {
        assert(all_digits(s.take(k + 1))) by {
            assert(forall|i: int| 0 <= i < k + 1 ==> s.take(k + 1)[i] == s[i]);
        }
        assert(s.take(k + 1).drop_last() =~= s.take(k));
        assert(dec_val(s.take(k + 1)) == dec_val(s.take(k)) * 10 + digit_val(s[k]));
        lemma_dec_val_nonneg(s.take(k));
        lemma_dec_val_take_le(s, k + 1);
    } else {
        assert(s.take(k) =~= s);
    }
}

/// Renders a non-negative integer in decimal.
pub fn u64_to_string(n: u64) -> (r: String)
    ensures
        r@ == u64_dec(n as int),
    decreases n,
{
    if n < 10 {
        let mut s = String::new();
        push_char(&mut s, digit_char(n));
        assert(s@ =~= u64_dec(n as int));
        s
    } else {
        let mut s = u64_to_string(n / 10);
        push_char(&mut s, digit_char(n % 10));
        assert(s@ =~= u64_dec(n as int));
        s
    }
}

/// Renders a signed integer in decimal, with a `-` sign when negative.
pub fn i64_to_string(n: i64) -> (r: String)
    ensures
        r@ == i64_dec(n as int),
{
    if n >= 0 {
        u64_to_string(n as u64)
    } else {
        let m: u64 = if n == i64::MIN {
            9223372036854775808u64
        } else {
            (-n) as u64
        };
        assert(m as int == -(n as int));
        let mut s = String::new();
        push_char(&mut s, '-');
        let digits = u64_to_string(m);
        let r = s.concat(digits.as_str());
        assert(r@ =~= i64_dec(n as int));
        r
    }
}

/// Parses a decimal string (optional leading `-`) as an `i64`; `None` exactly
/// when the string is malformed or out of range.
pub fn parse_i64(s: &str) -> (r: Option<i64>)
    ensures
        r is Some <==> i64_str_wf(s@),
        r matches Some(v) ==> v as int == i64_str_val(s@),
{
    let n = s.unicode_len();
    if n == 0 {
        return None;
    }
    let neg = s.get_char(0) == '-';
    let start: usize = if neg {
        1
    } else {
        0
    };
    let ghost digits: Seq<char> = if neg {
        s@.skip(1)
    } else {
        s@
    };
    if start >= n {
        assert(!i64_str_wf(s@));
        return None;
    }
    let mut acc: u64 = 0;
    let mut i: usize = start;
    while i < n
        invariant
            start <= i <= n,
            n == s@.len(),
            n >= 1,
            neg == (s@[0] == '-'),
            start == if neg { 1int } else { 0int },
            digits == if neg { s@.skip(1) } else { s@ },
            digits.len() == n - start,
            forall|j: int| 0 <= j < digits.len() ==> digits[j] == s@[j + start],
            all_digits(digits.take(i - start)),
            acc == dec_val(digits.take(i - start)),
        decreases n - i,
    {
        let c = s.get_char(i);
        if c < '0' || c > '9' {
            proof {
                assert(digits[i - start] == c);
                assert(!all_digits(digits));
                assert(!i64_str_wf(s@));
            }
            return None;
        }
        let d: u64 = ((c as u32) - ('0' as u32)) as u64;
        assert(d as int == digit_val(c));
        let ghost prev = digits.take(i - start);
        let ghost cur = digits.take(i - start + 1);
        proof {
            assert(cur.drop_last() =~= prev);
            assert(cur.last() == c);
            assert(all_digits(cur));
            assert(dec_val(cur) == dec_val(prev) * 10 + digit_val(c));
        }
        let m_opt = acc.checked_mul(10);
        if m_opt.is_none() {
            proof {
                // The value already exceeds u64, hence the range of i64.
                lemma_dec_val_nonneg(cur);
                if all_digits(digits) {
                    lemma_dec_val_take_le(digits, i - start + 1);
                    assert(dec_val(digits) >= dec_val(cur) > u64::MAX);
                }
                assert(!i64_str_wf(s@));
            }
            return None;
        }
        let m = m_opt.unwrap();
        let a_opt = m.checked_add(d);
        if a_opt.is_none() {
            proof {
                if all_digits(digits) {
                    lemma_dec_val_take_le(digits, i - start + 1);
                    assert(dec_val(digits) >= dec_val(cur) > u64::MAX);
                }
                assert(!i64_str_wf(s@));
            }
            return None;
        }
        acc = a_opt.unwrap();
        i = i + 1;
    }
    proof {
        assert(digits.take(n - start) =~= digits);
    }
    if neg {
        if acc > 9223372036854775808u64 {
            assert(!i64_str_wf(s@));
            None
        } else if acc == 9223372036854775808u64 {
            assert(i64_str_wf(s@));
            Some(i64::MIN)
        } else {
            assert(i64_str_wf(s@));
            Some(-(acc as i64))
        }
    } else {
        if acc > i64::MAX as u64 {
            assert(!i64_str_wf(s@));
            None
        } else {
            assert(i64_str_wf(s@));
            Some(acc as i64)
        }
    }
}

/// Character-wise string equality.
pub fn str_eq(a: &str, b: &str) -> (r: bool)
    ensures
        r == (a@ == b@),
{
    let na = a.unicode_len();
    let nb = b.unicode_len();
    if na != nb {
        return false;
    }
    let mut i: usize = 0;
    while i < na
        invariant
            0 <= i <= na,
            na == a@.len(),
            na == b@.len(),
            forall|j: int| 0 <= j < i ==> a@[j] == b@[j],
        decreases na - i,
    {
        if a.get_char(i) != b.get_char(i) {
            return false;
        }
        i = i + 1;
    }
    proof {
        assert(a@ =~= b@);
    }
    true
}

/// `p` is a prefix of `s`.
pub open spec fn starts_with(s: Seq<char>, p: Seq<char>) -> bool {
    s.len() >= p.len() && (forall|i: int| 0 <= i < p.len() ==> s[i] == p[i])
}

pub fn str_starts_with(s: &str, p: &str) -> (r: bool)
    ensures
        r == starts_with(s@, p@),
{
    let ns = s.unicode_len();
    let np = p.unicode_len();
    if ns < np {
        return false;
    }
    let mut i: usize = 0;
    while i < np
        invariant
            0 <= i <= np,
            ns == s@.len(),
            np == p@.len(),
            ns >= np,
            forall|j: int| 0 <= j < i ==> s@[j] == p@[j],
        decreases np - i,
    {
        if s.get_char(i) != p.get_char(i) {
            return false;
        }
        i = i + 1;
    }
    true
}

} // verus!
