//! Small text utilities the rules are stated and built with.

use vstd::prelude::*;

verus! {

/// Whether two strings hold the same characters.
pub fn str_equals(a: &str, b: &str) -> (r: bool)
    ensures
        r == (a@ == b@),
{
    let n = a.unicode_len();
    let m = b.unicode_len();
    if n != m {
        return false;
    }
    let mut i: usize = 0;
    while i < n
        invariant
            n == a@.len(),
            m == b@.len(),
            n == m,
            0 <= i <= n,
            forall|k: int| 0 <= k < i ==> a@[k] == b@[k],
        decreases n - i,
    {
        if a.get_char(i) != b.get_char(i) {
            return false;
        }
        i = i + 1;
    }
    assert(a@ == b@);
    true
}

/// The decimal digit character for `d < 10`.
pub open spec fn digit_char(d: nat) -> char {
    (('0' as nat) + d) as char
}

/// The decimal spelling of `n`, with no leading zeros.
pub open spec fn decimal(n: nat) -> Seq<char>
    decreases n,
{
    if n < 10 {
        seq![digit_char(n)]
    } else {
        decimal(n / 10).push(digit_char(n % 10))
    }
}

/// The decimal spelling of an integer, with a leading `-` when negative.
pub open spec fn signed_decimal(n: int) -> Seq<char> {
    if n < 0 {
        seq!['-'] + decimal((-n) as nat)
    } else {
        decimal(n as nat)
    }
}

/// Spells `n` in decimal through `u64`'s `Display`, which writes its digits with no sign,
/// padding, or leading zeros.
#[verifier::external_body]
pub fn decimal_string(n: u64) -> (r: String)
    ensures
        r@ == decimal(n as nat),
{
    n.to_string()
}

/// Spells `n` in decimal through `i64`'s `Display`: a `-` before the digits of a negative
/// value, no padding, no leading zeros.
#[verifier::external_body]
pub fn signed_decimal_string(n: i64) -> (r: String)
    ensures
        r@ == signed_decimal(n as int),
{
    n.to_string()
}

/// A new string holding `a` followed by `b`.
pub fn concat2(a: &str, b: &str) -> (r: String)
    ensures
        r@ == a@ + b@,
{
    let mut s = a.to_owned();
    s.append(b);
    s
}

/// A new string holding `a`, `b`, `c` in order.
pub fn concat3(a: &str, b: &str, c: &str) -> (r: String)
    ensures
        r@ == a@ + b@ + c@,
{
    let mut s = a.to_owned();
    s.append(b);
    s.append(c);
    s
}

/// A new string holding `a`, `b`, `c`, `d` in order.
pub fn concat4(a: &str, b: &str, c: &str, d: &str) -> (r: String)
    ensures
        r@ == a@ + b@ + c@ + d@,
{
    let mut s = a.to_owned();
    s.append(b);
    s.append(c);
    s.append(d);
    s
}


/// The index of the first `c` in `s`, or its length when it holds none.
pub open spec fn index_of_char(s: Seq<char>, c: char) -> int
    decreases s.len(),
{
    if s.len() == 0 || s[0] == c {
        0
    } else {
        1 + index_of_char(s.drop_first(), c)
    }
}

/// `index_of_char` is the first position holding `c`.
pub proof fn lemma_index_of_char_at(s: Seq<char>, c: char, j: int)
    requires
        0 <= j <= s.len(),
        forall|k: int| 0 <= k < j ==> s[k] != c,
        j == s.len() || s[j] == c,
    ensures
        index_of_char(s, c) == j,
    decreases j,
{
    if j > 0 {
        lemma_index_of_char_at(s.drop_first(), c, j - 1);
    }
}

/// `index_of_char` lies within the text.
pub proof fn lemma_index_of_char_bounds(s: Seq<char>, c: char)
    ensures
        0 <= index_of_char(s, c) <= s.len(),
    decreases s.len(),
{
    if s.len() > 0 && s[0] != c {
        lemma_index_of_char_bounds(s.drop_first(), c);
    }
}

/// What `char::to_uppercase` yields for `c`: its Unicode uppercase mapping, one or more
/// characters.
pub uninterp spec fn char_uppercase(c: char) -> Seq<char>;

/// The Unicode uppercase mapping of `c`, through `char::to_uppercase`, collected into a
/// string. The mapping depends on the character alone; its table is not restated here.
#[verifier::external_body]
pub fn uppercase_of(c: char) -> (r: String)
    ensures
        r@ == char_uppercase(c),
{
    c.to_uppercase().collect()
}


/// An ASCII decimal digit.
pub open spec fn is_digit(c: char) -> bool {
    '0' <= c && c <= '9'
}

/// Every character of `s` is an ASCII decimal digit.
pub open spec fn all_digits(s: Seq<char>) -> bool {
    forall|i: int| 0 <= i < s.len() ==> is_digit(#[trigger] s[i])
}

/// The number that the decimal digits `s` spell (leading zeros allowed).
pub open spec fn digits_value(s: Seq<char>) -> nat
    decreases s.len(),
{
    if s.len() == 0 {
        0
    } else {
        digits_value(s.drop_last()) * 10 + ((s.last() as int) - ('0' as int)) as nat
    }
}

/// The digits of an unsigned integer's text: Rust's parser accepts one leading `+`.
pub open spec fn unsigned_digits(s: Seq<char>) -> Seq<char> {
    if s.len() > 0 && s[0] == '+' {
        s.drop_first()
    } else {
        s
    }
}

/// What `str::parse` gives for an unsigned integer type whose largest value is `max`: an
/// optional `+`, then one or more decimal digits spelling a value no larger than `max`.
pub open spec fn parsed_unsigned(s: Seq<char>, max: nat) -> Option<nat> {
    let d = unsigned_digits(s);
    if d.len() > 0 && all_digits(d) && digits_value(d) <= max {
        Some(digits_value(d))
    } else {
        None
    }
}

/// What `str::parse` gives for a signed integer type whose values run from `-least` to
/// `most`: a `-` and the digits of a magnitude up to `least`, or the unsigned form up to `most`.
pub open spec fn parsed_signed(s: Seq<char>, least: nat, most: nat) -> Option<int> {
    if s.len() > 0 && s[0] == '-' {
        let d = s.drop_first();
        if d.len() > 0 && all_digits(d) && digits_value(d) <= least {
            Some(-(digits_value(d) as int))
        } else {
            None
        }
    } else {
        match parsed_unsigned(s, most) {
            Some(v) => Some(v as int),
            None => None,
        }
    }
}

/// Appending a digit never makes the spelled number smaller.
proof fn lemma_digits_value_grows(s: Seq<char>, j: int)
    requires
        0 <= j <= s.len(),
        all_digits(s),
    ensures
        digits_value(s.take(j)) <= digits_value(s),
    decreases s.len() - j,
{
    if j < s.len() {
        lemma_digits_value_grows(s, j + 1);
        assert(s.take(j + 1).drop_last() =~= s.take(j));
        assert(is_digit(s[j]));
    } else {
        assert(s.take(j) =~= s);
    }
}

/// The value of the decimal digits of `s` from `start` on, when there is at least one, all
/// are digits, and the value is at most `max`.
fn digits_at(s: &str, start: usize, max: u64) -> (r: Option<u64>)
    requires
        start <= s@.len(),
        max >= 9,
    ensures
        ({
            let d = s@.skip(start as int);
            if d.len() > 0 && all_digits(d) && digits_value(d) <= max {
                r == Some(digits_value(d) as u64)
            } else {
                r is None
            }
        }),
{
    let n = s.unicode_len();
    let ghost d = s@.skip(start as int);
    if start >= n {
        return None;
    }
    let mut value: u64 = 0;
    let mut i: usize = start;
    assert(d.take(0) =~= Seq::<char>::empty());
    while i < n
        invariant
            n == s@.len(),
            d == s@.skip(start as int),
            start <= i <= n,
            max >= 9,
            all_digits(d.take(i - start)),
            value == digits_value(d.take(i - start)),
            value <= max,
        decreases n - i,
    {
        let c = s.get_char(i);
        assert(d[i - start] == c);
        if !('0' <= c && c <= '9') {
            assert(!is_digit(d[i - start]));
            return None;
        }
        let digit: u64 = (c as u32 - '0' as u32) as u64;
        let ghost next = d.take(i - start + 1);
        assert(next.drop_last() =~= d.take(i - start));
        assert(next.last() == c);
        assert(all_digits(next));
        let bound: u64 = (max - digit) / 10;
        if value > bound {
            proof {
                assert(value * 10 + digit > max) by (nonlinear_arith)
                    requires
                        value > bound,
                        bound == (max - digit) / 10,
                        digit <= 9,
                        max >= 9,
                ;
                if all_digits(d) {
                    lemma_digits_value_grows(d, i - start + 1);
                }
            }
            return None;
        }
        proof {
            assert(value * 10 + digit <= max) by (nonlinear_arith)
                requires
                    value <= bound,
                    bound == (max - digit) / 10,
                    digit <= 9,
                    max >= 9,
            ;
        }
        value = value * 10 + digit;
        i = i + 1;
    }
    assert(d.take(n - start) =~= d);
    Some(value)
}

/// Reads an unsigned decimal no larger than `max`, as `str::parse` does for an unsigned type
/// with that largest value.
fn unsigned_at_most(s: &str, max: u64) -> (r: Option<u64>)
    requires
        max >= 9,
    ensures
        match parsed_unsigned(s@, max as nat) {
            Some(v) => r == Some(v as u64),
            None => r is None,
        },
{
    let n = s.unicode_len();
    if n > 0 && s.get_char(0) == '+' {
        assert(s@.skip(1) =~= s@.drop_first());
        digits_at(s, 1, max)
    } else {
        assert(s@.skip(0) =~= s@);
        digits_at(s, 0, max)
    }
}

/// Reads a `u64` the way `str::parse::<u64>` does.
pub fn parse_u64(s: &str) -> (r: Option<u64>)
    ensures
        match parsed_unsigned(s@, u64::MAX as nat) {
            Some(v) => r == Some(v as u64),
            None => r is None,
        },
{
    unsigned_at_most(s, u64::MAX)
}

/// Reads a `usize` the way `str::parse::<usize>` does.
pub fn parse_usize(s: &str) -> (r: Option<usize>)
    ensures
        match parsed_unsigned(s@, usize::MAX as nat) {
            Some(v) => r == Some(v as usize),
            None => r is None,
        },
{
    match unsigned_at_most(s, usize::MAX as u64) {
        Some(v) => Some(v as usize),
        None => None,
    }
}

/// Reads an `i32` the way `str::parse::<i32>` does.
pub fn parse_i32(s: &str) -> (r: Option<i32>)
    ensures
        match parsed_signed(s@, 0x8000_0000, 0x7fff_ffff) {
            Some(v) => r == Some(v as i32),
            None => r is None,
        },
{
    let n = s.unicode_len();
    if n > 0 && s.get_char(0) == '-' {
        assert(s@.skip(1) =~= s@.drop_first());
        match digits_at(s, 1, 0x8000_0000) {
            Some(m) => Some((0 - (m as i64)) as i32),
            None => None,
        }
    } else {
        match unsigned_at_most(s, 0x7fff_ffff) {
            Some(v) => Some(v as i32),
            None => None,
        }
    }
}

} // verus!
