//! Character and string helpers shared by the tokenizer, the grammar and the
//! store: Unicode whitespace classification, string equality, decimal `i32`
//! parsing and substring search, each against an exact specification.

use vstd::prelude::*;
use vstd::string::*;

verus! {

/// The Unicode `White_Space` code points, the classification the tokenizer
/// separates tokens by.
pub open spec fn is_space(c: char) -> bool {
    let u = c as u32;
    u == 0x09 || u == 0x0a || u == 0x0b || u == 0x0c || u == 0x0d || u == 0x20 || u == 0x85
        || u == 0xa0 || u == 0x1680 || (0x2000 <= u && u <= 0x200a) || u == 0x2028 || u == 0x2029
        || u == 0x202f || u == 0x205f || u == 0x3000
}

/// Runtime test for [`is_space`].
pub fn is_space_char(c: char) -> (r: bool)
    ensures
        r == is_space(c),
{
    let u = c as u32;
    u == 0x09 || u == 0x0a || u == 0x0b || u == 0x0c || u == 0x0d || u == 0x20 || u == 0x85
        || u == 0xa0 || u == 0x1680 || (0x2000 <= u && u <= 0x200a) || u == 0x2028 || u == 0x2029
        || u == 0x202f || u == 0x205f || u == 0x3000
}

/// Character-wise string equality, decided over the views.
pub fn str_eq(a: &str, b: &str) -> (r: bool)
    ensures
        r == (a@ == b@),
{
    let alen = a.unicode_len();
    let blen = b.unicode_len();
    if alen != blen {
        return false;
    }
    let mut i: usize = 0;
    while i < alen
        invariant
            alen == a@.len(),
            alen == b@.len(),
            i <= alen,
            forall|j: int| 0 <= j < i ==> a@[j] == b@[j],
        decreases alen - i,
    {
        if a.get_char(i) != b.get_char(i) {
            return false;
        }
        i = i + 1;
    }
    proof {
        assert(a@ =~= b@);
    }
    true
}

/// A decimal digit.
pub open spec fn is_digit(c: char) -> bool {
    0x30 <= c as u32 && c as u32 <= 0x39
}

/// Numeric value of a decimal digit.
pub open spec fn digit_val(c: char) -> int {
    c as u32 - 0x30
}

pub open spec fn all_digits(s: Seq<char>) -> bool {
    forall|i: int| 0 <= i < s.len() ==> is_digit(#[trigger] s[i])
}

/// Value of a sequence of decimal digits, most significant first.
pub open spec fn digits_val(s: Seq<char>) -> int
    decreases s.len(),
{
    if s.len() == 0 {
        0
    } else {
        digits_val(s.drop_last()) * 10 + digit_val(s.last())
    }
}

proof fn lemma_digits_val_nonneg(s: Seq<char>)
    requires
        all_digits(s),
    ensures
        digits_val(s) >= 0,
    decreases s.len(),
{
    if s.len() > 0 {
        assert(all_digits(s.drop_last()));
        lemma_digits_val_nonneg(s.drop_last());
    }
}

/// The digit part of an integer literal: everything after an optional single
/// leading `+` or `-` sign.
pub open spec fn int_body(s: Seq<char>) -> Seq<char> {
    if s.len() > 0 && (s[0] == '+' || s[0] == '-') {
        s.drop_first()
    } else {
        s
    }
}

pub open spec fn is_negative_literal(s: Seq<char>) -> bool {
    s.len() > 0 && s[0] == '-'
}

/// Exactly the strings `str::parse::<i32>` accepts: an optional sign, at least
/// one digit, nothing else, and a value within the range of `i32`.
pub open spec fn is_valid_i32(s: Seq<char>) -> bool {
    let body = int_body(s);
    body.len() > 0 && all_digits(body) && if is_negative_literal(s) {
        -digits_val(body) >= i32::MIN
    } else {
        digits_val(body) <= i32::MAX
    }
}

/// The value denoted by a valid `i32` literal.
pub open spec fn i32_value(s: Seq<char>) -> int {
    if is_negative_literal(s) {
        -digits_val(int_body(s))
    } else {
        digits_val(int_body(s))
    }
}

/// Parses a decimal `i32`, accepting exactly the strings [`is_valid_i32`]
/// accepts and returning the denoted value.
pub fn parse_i32(s: &str) -> (r: Option<i32>)
    ensures
        match r {
            Some(v) => is_valid_i32(s@) && v as int == i32_value(s@),
            None => !is_valid_i32(s@),
        },
{
    let len = s.unicode_len();
    if len == 0 {
        return None;
    }
    let c0 = s.get_char(0);
    let start: usize = if c0 == '+' || c0 == '-' {
        1
    } else {
        0
    };
    let negative = c0 == '-';
    proof {
        assert(int_body(s@) =~= s@.subrange(start as int, len as int));
    }
    if start >= len {
        // Sign with no digits.
        return None;
    }
    let mut i: usize = start;
    let mut acc: i64 = 0;
    while i < len
        invariant
            len == s@.len(),
            start <= i <= len,
            start < len,
            int_body(s@) == s@.subrange(start as int, len as int),
            all_digits(s@.subrange(start as int, i as int)),
            0 <= acc <= 0x5_0000_0009i64,
            digits_val(s@.subrange(start as int, i as int)) <= 0x8000_0000 ==> acc as int
                == digits_val(s@.subrange(start as int, i as int)),
            digits_val(s@.subrange(start as int, i as int)) > 0x8000_0000 ==> acc as int
                > 0x8000_0000,
        decreases len - i,
    {
        let c = s.get_char(i);
        let u = c as u32;
        if u < 0x30 || u > 0x39 {
            // A non-digit in the body: the literal is invalid.
            proof {
                assert(int_body(s@)[i - start] == s@[i as int]);
                assert(!is_digit(int_body(s@)[i - start]));
            }
            return None;
        }
        let d = (u - 0x30) as i64;
        let ghost prefix = s@.subrange(start as int, i as int);
        let ghost extended = s@.subrange(start as int, i as int + 1);
        proof {
            assert(extended.drop_last() =~= prefix);
            assert(extended.last() == c);
            assert(digits_val(extended) == digits_val(prefix) * 10 + digit_val(c));
            lemma_digits_val_nonneg(prefix);
        }
        if acc <= 0x8000_0000i64 {
            acc = acc * 10 + d;
        }
        i = i + 1;
    }
    proof {
        assert(s@.subrange(start as int, len as int) =~= int_body(s@));
    }
    if negative {
        if acc <= 0x8000_0000i64 {
            Some((-acc) as i32)
        } else {
            None
        }
    } else {
        if acc <= 0x7fff_ffffi64 {
            Some(acc as i32)
        } else {
            None
        }
    }
}

/// `needle` occurs in `hay` starting at position `k`.
pub open spec fn match_at(hay: Seq<char>, needle: Seq<char>, k: int) -> bool {
    forall|j: int| 0 <= j < needle.len() ==> hay[k + j] == needle[j]
}

/// `needle` occurs somewhere in `hay`; the meaning of a `%needle%` pattern.
pub open spec fn contains_seq(hay: Seq<char>, needle: Seq<char>) -> bool {
    exists|k: int| 0 <= k && k + needle.len() <= hay.len() && match_at(hay, needle, k)
}

/// Case-sensitive substring search, deciding [`contains_seq`].
pub fn str_contains(hay: &str, needle: &str) -> (r: bool)
    ensures
        r == contains_seq(hay@, needle@),
{
    let hlen = hay.unicode_len();
    let nlen = needle.unicode_len();
    if nlen > hlen {
        return false;
    }
    let last_start = hlen - nlen;
    let mut k: usize = 0;
    while k <= last_start
        invariant
            hlen == hay@.len(),
            nlen == needle@.len(),
            nlen <= hlen,
            last_start == hlen - nlen,
            k <= last_start + 1,
            forall|k2: int| 0 <= k2 < k ==> !match_at(hay@, needle@, k2),
        decreases last_start - k + 1,
    {
        let mut j: usize = 0;
        let mut mismatch = false;
        while j < nlen
            invariant
                hlen == hay@.len(),
                nlen == needle@.len(),
                k + nlen <= hlen,
                j <= nlen,
                !mismatch ==> forall|j2: int| 0 <= j2 < j ==> hay@[k + j2] == needle@[j2],
                mismatch ==> !match_at(hay@, needle@, k as int),
            decreases nlen - j,
        {
            if hay.get_char(k + j) != needle.get_char(j) {
                proof {
                    assert(!match_at(hay@, needle@, k as int));
                }
                mismatch = true;
                j = nlen;
            } else {
                j = j + 1;
            }
        }
        if !mismatch {
            proof {
                assert(match_at(hay@, needle@, k as int));
            }
            return true;
        }
        k = k + 1;
    }
    proof {
        assert forall|k2: int| 0 <= k2 && k2 + needle@.len() <= hay@.len() implies !match_at(
            hay@,
            needle@,
            k2,
        ) by {
            assert(k2 < k);
        }
    }
    false
}

} // verus!
