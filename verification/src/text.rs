//! Bytes and text: what the codecs need of UTF-8, of ASCII case and of
//! decimal numbers.

use vstd::prelude::*;
use vstd::slice::slice_subrange;
use vstd::utf8::*;

verus! {

/// The text that `bytes` hold in UTF-8, and no text where they hold none.
pub open spec fn text(bytes: Seq<u8>) -> Seq<char> {
    if valid_utf8(bytes) {
        decode_utf8(bytes)
    } else {
        Seq::empty()
    }
}

/// `std::str::from_utf8`: the string that `bytes` hold in UTF-8, which shares
/// their memory, or nothing where they are no UTF-8.
#[verifier::external_body]
pub(crate) fn utf8_str(bytes: &[u8]) -> (r: Option<&str>)
    ensures
        r is Some <==> valid_utf8(bytes@),
        r is Some ==> encode_utf8(r->Some_0@) == bytes@,
{
    std::str::from_utf8(bytes).ok()
}

/// The text of `bytes` as a string slice.
pub fn text_of(bytes: &[u8]) -> (s: &str)
    ensures
        s@ == text(bytes@),
{
    match utf8_str(bytes) {
        Some(s) => {
            proof {
                encode_utf8_decode_utf8(s@);
            }
            s
        },
        None => {
            proof {
                reveal_strlit("");
                assert(""@ =~= Seq::<char>::empty());
            }
            ""
        },
    }
}

/// The bytes of a string hold its text.
pub proof fn lemma_text_of_str(s: &str)
    ensures
        text(encode_utf8(s@)) == s@,
        valid_utf8(encode_utf8(s@)),
{
    encode_utf8_valid_utf8(s@);
    encode_utf8_decode_utf8(s@);
}

/// An ASCII upper-case letter as lower case; every other byte as it is.
pub open spec fn ascii_lower(b: u8) -> u8 {
    if 0x41 <= b <= 0x5a {
        (b + 0x20) as u8
    } else {
        b
    }
}

/// Whether two byte strings are equal but for the case of ASCII letters.
pub open spec fn eq_ignore_ascii_case(a: Seq<u8>, b: Seq<u8>) -> bool {
    &&& a.len() == b.len()
    &&& forall|i: int| 0 <= i < a.len() ==> ascii_lower(#[trigger] a[i]) == ascii_lower(b[i])
}

/// `unicase::eq_ascii`: whether two strings are equal but for the case of
/// ASCII letters. It compares their bytes with `eq_ignore_ascii_case` of std.
#[verifier::external_body]
pub(crate) fn eq_ascii(a: &str, b: &str) -> (r: bool)
    ensures
        r == eq_ignore_ascii_case(encode_utf8(a@), encode_utf8(b@)),
{
    unicase::eq_ascii(a, b)
}

/// Whether two byte strings are equal.
pub fn bytes_eq(a: &[u8], b: &[u8]) -> (r: bool)
    ensures
        r == (a@ == b@),
{
    if a.len() != b.len() {
        return false;
    }
    let mut i: usize = 0;
    while i < a.len()
        invariant
            i <= a@.len(),
            a@.len() == b@.len(),
            forall|k: int| 0 <= k < i ==> a@[k] == b@[k],
        decreases a@.len() - i,
    {
        if a[i] != b[i] {
            return false;
        }
        i += 1;
    }
    proof {
        assert(a@ =~= b@);
    }
    true
}

/// Whether two strings are equal.
pub fn str_eq(a: &str, b: &str) -> (r: bool)
    ensures
        r == (a@ == b@),
{
    proof {
        encode_utf8_decode_utf8(a@);
        encode_utf8_decode_utf8(b@);
    }
    bytes_eq(a.as_bytes(), b.as_bytes())
}

/// The place where `needle` first stands in `hay` at or after `from`.
pub open spec fn first_at(hay: Seq<u8>, needle: Seq<u8>, from: int) -> Option<int>
    decreases hay.len() - from + 1,
{
    if from < 0 || from + needle.len() > hay.len() {
        None
    } else if hay.subrange(from, from + needle.len()) == needle {
        Some(from)
    } else {
        first_at(hay, needle, from + 1)
    }
}

/// The place where `needle` first stands in `hay`.
pub open spec fn first_occurrence(hay: Seq<u8>, needle: Seq<u8>) -> Option<int> {
    first_at(hay, needle, 0)
}

/// The place of the first byte `b` in `s`.
pub open spec fn first_byte(s: Seq<u8>, b: u8) -> Option<int> {
    first_occurrence(s, seq![b])
}

/// What `first_at` finds is a place of `needle` at or after `from`, with
/// none before it.
pub proof fn lemma_first_at(hay: Seq<u8>, needle: Seq<u8>, from: int)
    requires
        0 <= from,
    ensures
        match first_at(hay, needle, from) {
            Some(at) => {
                &&& from <= at
                &&& at + needle.len() <= hay.len()
                &&& hay.subrange(at, at + needle.len()) == needle
                &&& forall|k: int|
                    from <= k < at ==> #[trigger] hay.subrange(k, k + needle.len()) != needle
            },
            None => forall|k: int|
                from <= k && k + needle.len() <= hay.len() ==> #[trigger] hay.subrange(
                    k,
                    k + needle.len(),
                ) != needle,
        },
    decreases hay.len() - from + 1,
{
    if from + needle.len() <= hay.len() && hay.subrange(from, from + needle.len()) != needle {
        lemma_first_at(hay, needle, from + 1);
    }
}

/// The place where `needle` first stands in `hay`.
pub fn find_bytes(hay: &[u8], needle: &[u8]) -> (r: Option<usize>)
    ensures
        match r {
            Some(at) => first_occurrence(hay@, needle@) == Some(at as int) && at + needle@.len()
                <= hay@.len(),
            None => first_occurrence(hay@, needle@) is None,
        },
{
    let n: usize = needle.len();
    let len: usize = hay.len();
    if n > len {
        return None;
    }
    let last: usize = len - n;
    let mut at: usize = 0;
    loop
        invariant
            n == needle@.len(),
            len == hay@.len(),
            last == len - n,
            at <= last,
            first_at(hay@, needle@, 0) == first_at(hay@, needle@, at as int),
        decreases last - at,
    {
        if bytes_eq(slice_subrange(hay, at, at + n), needle) {
            return Some(at);
        }
        if at == last {
            return None;
        }
        at += 1;
    }
}

/// The place of the first byte `b` in `s`.
pub fn find_byte(s: &[u8], b: u8) -> (r: Option<usize>)
    ensures
        match r {
            Some(at) => first_byte(s@, b) == Some(at as int) && at < s@.len() && s@[at as int] == b,
            None => first_byte(s@, b) is None,
        },
{
    let mut at: usize = 0;
    while at < s.len()
        invariant
            at <= s@.len(),
            first_at(s@, seq![b], 0) == first_at(s@, seq![b], at as int),
        decreases s@.len() - at,
    {
        if s[at] == b {
            proof {
                assert(s@.subrange(at as int, at + 1) =~= seq![b]);
            }
            return Some(at);
        }
        proof {
            assert(s@.subrange(at as int, at + 1)[0] == s@[at as int]);
        }
        at += 1;
    }
    None
}

/// Whether a byte is an ASCII digit.
pub open spec fn is_digit(b: u8) -> bool {
    0x30 <= b <= 0x39
}

/// The number that a string of digits denotes.
pub open spec fn digits_value(s: Seq<u8>) -> nat
    decreases s.len(),
{
    if s.len() == 0 {
        0
    } else {
        digits_value(s.drop_last()) * 10 + (s.last() - 0x30) as nat
    }
}

/// `s` without a `+` at its start.
pub open spec fn without_sign(s: Seq<u8>) -> Seq<u8> {
    if s.len() > 0 && s[0] == 0x2b {
        s.skip(1)
    } else {
        s
    }
}

/// Whether every byte of `s` is an ASCII digit.
pub open spec fn all_digits(s: Seq<u8>) -> bool {
    forall|i: int| 0 <= i < s.len() ==> is_digit(#[trigger] s[i])
}

/// The number that `s` denotes in decimal, as the standard library reads a
/// `usize`: an optional `+`, then one digit or more and nothing else, of a
/// value that fits.
pub open spec fn decimal_of(s: Seq<u8>) -> Option<usize> {
    let digits = without_sign(s);
    if digits.len() > 0 && all_digits(digits) && digits_value(digits) <= usize::MAX {
        Some(digits_value(digits) as usize)
    } else {
        None
    }
}

/// A string of digits denotes no less than any of its prefixes.
pub proof fn lemma_digits_value_grows(s: Seq<u8>, k: int)
    requires
        0 <= k <= s.len(),
        all_digits(s),
    ensures
        digits_value(s.take(k)) <= digits_value(s),
    decreases s.len() - k,
{
    if k < s.len() {
        lemma_digits_value_grows(s, k + 1);
        assert(s.take(k + 1).drop_last() =~= s.take(k));
    } else {
        assert(s.take(k) =~= s);
    }
}

/// Reads a decimal number as the standard library reads a `usize`.
pub fn parse_decimal(s: &[u8]) -> (r: Option<usize>)
    ensures
        r == decimal_of(s@),
{
    let len: usize = s.len();
    let start: usize = if len > 0 && s[0] == 0x2b {
        1
    } else {
        0
    };
    let ghost digits = without_sign(s@);
    if start == len {
        return None;
    }
    let mut value: usize = 0;
    let mut i: usize = start;
    while i < len
        invariant
            start <= i <= len,
            len == s@.len(),
            digits == without_sign(s@),
            digits.len() == len - start,
            forall|k: int| 0 <= k < digits.len() ==> digits[k] == s@[start + k],
            forall|k: int| 0 <= k < i - start ==> is_digit(#[trigger] digits[k]),
            value == digits_value(digits.take(i - start)),
        decreases len - i,
    {
        let b: u8 = s[i];
        if b < 0x30 || b > 0x39 {
            proof {
                assert(!is_digit(digits[i - start]));
            }
            return None;
        }
        let ghost next = digits.take(i - start + 1);
        proof {
            assert(next.drop_last() =~= digits.take(i - start));
            assert(next.last() == b);
        }
        let d: usize = (b - 0x30) as usize;
        if value > (usize::MAX - d) / 10 {
            proof {
                assert(digits_value(next) > usize::MAX);
                if all_digits(digits) {
                    lemma_digits_value_grows(digits, i - start + 1);
                }
            }
            return None;
        }
        value = value * 10 + d;
        i += 1;
    }
    proof {
        assert(digits.take(i - start) =~= digits);
    }
    Some(value)
}

/// The digits of `n` in decimal.
pub open spec fn decimal_bytes(n: nat) -> Seq<u8>
    decreases n,
{
    if n < 10 {
        seq![(0x30 + n) as u8]
    } else {
        decimal_bytes(n / 10).push((0x30 + n % 10) as u8)
    }
}

/// Appends the digits of `n` in decimal to `buf`.
pub fn push_decimal(buf: &mut Vec<u8>, n: u64)
    ensures
        final(buf)@ == old(buf)@ + decimal_bytes(n as nat),
    decreases n,
{
    if n >= 10 {
        push_decimal(buf, n / 10);
    }
    buf.push(0x30 + (n % 10) as u8);
    proof {
        assert(final(buf)@ =~= old(buf)@ + decimal_bytes(n as nat));
    }
}

/// Appends `bytes` to `buf`.
pub fn push_bytes(buf: &mut Vec<u8>, bytes: &[u8])
    ensures
        final(buf)@ == old(buf)@ + bytes@,
{
    buf.extend_from_slice(bytes);
    proof {
        assert(final(buf)@ =~= old(buf)@ + bytes@);
    }
}

/// What `str::trim` of the standard library leaves of a text: the text
/// without the white space at its start and at its end.
pub uninterp spec fn trimmed(s: Seq<char>) -> Seq<char>;

/// `str::trim`: the string without the white space at its start and at its
/// end, which depends on the text alone.
#[verifier::external_body]
pub(crate) fn trim(s: &str) -> (r: &str)
    ensures
        r@ == trimmed(s@),
{
    s.trim()
}

} // verus!
