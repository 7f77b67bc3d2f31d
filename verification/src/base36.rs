//! Comment identifiers are exposed to clients in a compact base-36 textual
//! encoding; internally they are ordinary sequential numeric identifiers.
//! Encoding then decoding a non-negative identifier yields it back.

use vstd::prelude::*;

verus! {

/// The character standing for one base-36 digit value: `0`-`9` then `a`-`z`.
pub open spec fn spec_digit36(d: int) -> char
    recommends
        0 <= d < 36,
{
    if d < 10 {
        (48 + d) as char
    } else {
        (87 + d) as char
    }
}

/// The digit value of one character, accepting both lower and upper case,
/// or `None` if the character is no base-36 digit.
pub open spec fn spec_digit_val(c: char) -> Option<int> {
    let x = c as int;
    if 48 <= x <= 57 {
        Some(x - 48)
    } else if 97 <= x <= 122 {
        Some(x - 87)
    } else if 65 <= x <= 90 {
        Some(x - 65 + 10)
    } else {
        None
    }
}

/// The base-36 digits of `n`, least-significant first.
pub open spec fn base36_rev(n: int) -> Seq<char>
    recommends
        n >= 0,
    decreases n,
{
    if n < 36 {
        seq![spec_digit36(n)]
    } else {
        seq![spec_digit36(n % 36)] + base36_rev(n / 36)
    }
}

/// The base-36 encoding of `n`: its digits, most-significant first.
pub open spec fn spec_encode36(n: int) -> Seq<char> {
    base36_rev(n).reverse()
}

/// The running value of a digit string read left to right, `None` as soon as
/// a character is no digit or the value leaves `i64` range.
pub open spec fn decode36_rec(s: Seq<char>) -> Option<int>
    decreases s.len(),
{
    if s.len() == 0 {
        Some(0)
    } else {
        match decode36_rec(s.drop_last()) {
            None => None,
            Some(v) => match spec_digit_val(s.last()) {
                None => None,
                Some(d) => if v * 36 + d > i64::MAX {
                    None
                } else {
                    Some(v * 36 + d)
                },
            },
        }
    }
}

/// What decoding a whole identifier string yields: the empty string is
/// rejected, otherwise the digits' value if every character is a digit and
/// the value fits in `i64`.
pub open spec fn spec_decode36(s: Seq<char>) -> Option<i64> {
    if s.len() == 0 {
        None
    } else {
        match decode36_rec(s) {
            None => None,
            Some(v) => Some(v as i64),
        }
    }
}

fn digit36(d: u64) -> (c: char)
    requires
        d < 36,
    ensures
        c == spec_digit36(d as int),
{
    if d < 10 {
        (48 + d as u8) as char
    } else {
        (87 + d as u8) as char
    }
}

fn digit_val(c: char) -> (r: Option<u64>)
    ensures
        match r {
            Some(d) => spec_digit_val(c) == Some(d as int) && d < 36,
            None => spec_digit_val(c) is None,
        },
{
    let x = c as u32;
    if 48 <= x && x <= 57 {
        Some((x - 48) as u64)
    } else if 97 <= x && x <= 122 {
        Some((x - 87) as u64)
    } else if 65 <= x && x <= 90 {
        Some((x - 55) as u64)
    } else {
        None
    }
}

/// Encodes a non-negative identifier in base 36, digits `0`-`9` then
/// `a`-`z`, most-significant first.
pub fn encode36(n: i64) -> (r: String)
    requires
        n >= 0,
    ensures
        r@ == spec_encode36(n as int),
{
    let mut m: u64 = n as u64;
    let mut digits: Vec<char> = Vec::new();
    while m >= 36
        invariant
            base36_rev(n as int) == digits@ + base36_rev(m as int),
        decreases m,
    {
        digits.push(digit36(m % 36));
        m = m / 36;
    }
    digits.push(digit36(m));
    assert(digits@ =~= base36_rev(n as int));
    let mut r = String::new();
    let mut i: usize = digits.len();
    while i > 0
        invariant
            i <= digits@.len(),
            digits@ == base36_rev(n as int),
            r@ =~= digits@.subrange(i as int, digits@.len() as int).reverse(),
        decreases i,
    {
        i = i - 1;
        push_char(&mut r, digits[i]);
        assert(r@ =~= digits@.subrange(i as int, digits@.len() as int).reverse());
    }
    assert(r@ =~= base36_rev(n as int).reverse());
    r
}

/// Decodes a base-36 identifier string, accepting upper- and lower-case
/// digits; yields `None` on an empty string, a non-digit character, or a
/// value outside `i64` range.
pub fn decode36(s: &str) -> (r: Option<i64>)
    ensures
        r == spec_decode36(s@),
{
    let n = s.unicode_len();
    if n == 0 {
        return None;
    }
    let mut acc: i64 = 0;
    let mut i: usize = 0;
    while i < n
        invariant
            i <= n,
            n == s@.len(),
            acc >= 0,
            decode36_rec(s@.subrange(0, i as int)) == Some(acc as int),
        decreases n - i,
    {
        let c = s.get_char(i);
        proof {
            assert(s@.subrange(0, i + 1).drop_last() =~= s@.subrange(0, i as int));
            assert(s@.subrange(0, i + 1).last() == s@[i as int]);
        }
        let d = match digit_val(c) {
            Some(d) => d,
            None => {
                proof {
                    lemma_decode36_rec_extend_none(s@, i + 1);
                }
                return None;
            },
        };
        let shifted = match acc.checked_mul(36) {
            Some(v) => v,
            None => {
                proof {
                    lemma_decode36_rec_extend_none(s@, i + 1);
                }
                return None;
            },
        };
        acc = match shifted.checked_add(d as i64) {
            Some(v) => v,
            None => {
                proof {
                    lemma_decode36_rec_extend_none(s@, i + 1);
                }
                return None;
            },
        };
        i = i + 1;
    }
    proof {
        assert(s@.subrange(0, n as int) =~= s@);
    }
    Some(acc)
}

/// If the running value already failed on a prefix, it fails on the whole
/// string too.
proof fn lemma_decode36_rec_extend_none(s: Seq<char>, i: int)
    requires
        0 <= i <= s.len(),
        decode36_rec(s.subrange(0, i)) is None,
    ensures
        decode36_rec(s) is None,
    decreases s.len() - i,
{
    if i == s.len() {
        assert(s.subrange(0, i) =~= s);
    } else {
        assert(s.subrange(0, i + 1).drop_last() =~= s.subrange(0, i));
        lemma_decode36_rec_extend_none(s, i + 1);
    }
}

/// Encoding a non-negative identifier and decoding the result yields the
/// identifier back: the base-36 form is a faithful presentation of the
/// internal numeric identifier.
pub proof fn lemma_encode36_roundtrip(n: i64)
    requires
        n >= 0,
    ensures
        spec_decode36(spec_encode36(n as int)) == Some(n),
{
    lemma_decode36_rec_of_encoding(n as int);
    assert(base36_rev(n as int).len() >= 1);
    assert(spec_encode36(n as int).len() >= 1);
}

/// The running value of the encoding of `n` is `n` itself.
proof fn lemma_decode36_rec_of_encoding(n: int)
    requires
        0 <= n <= i64::MAX,
    ensures
        decode36_rec(base36_rev(n).reverse()) == Some(n),
    decreases n,
{
    lemma_digit_roundtrip(n % 36);
    if n < 36 {
        let s = base36_rev(n).reverse();
        assert(s =~= seq![spec_digit36(n)]);
        assert(s.drop_last() =~= Seq::<char>::empty());
        assert(decode36_rec(s.drop_last()) == Some(0int));
        assert(decode36_rec(s) == Some(n));
    } else {
        lemma_decode36_rec_of_encoding(n / 36);
        let s = base36_rev(n).reverse();
        let t = base36_rev(n / 36).reverse();
        assert(base36_rev(n) == seq![spec_digit36(n % 36)] + base36_rev(n / 36));
        assert(s =~= t.push(spec_digit36(n % 36)));
        assert(s.drop_last() =~= t);
        assert(s.last() == spec_digit36(n % 36));
        assert((n / 36) * 36 + n % 36 == n) by {
            vstd::arithmetic::div_mod::lemma_fundamental_div_mod(n, 36);
        }
        assert(decode36_rec(s) == Some(n));
    }
}

/// A digit character decodes back to the digit value it stands for.
proof fn lemma_digit_roundtrip(d: int)
    requires
        0 <= d < 36,
    ensures
        spec_digit_val(spec_digit36(d)) == Some(d),
{
    if d < 10 {
        assert(spec_digit36(d) == (48 + d) as char);
        assert(((48 + d) as char) as int == 48 + d);
    } else {
        assert(spec_digit36(d) == (87 + d) as char);
        assert(((87 + d) as char) as int == 87 + d);
    }
}

/// Relies on `String::push`: appends one character to the string.
#[verifier::external_body]
pub(crate) fn push_char(s: &mut String, c: char)
    ensures
        final(s)@ == old(s)@.push(c),
{
    s.push(c);
}

} // verus!
