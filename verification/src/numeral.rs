//! Base 62 numerals: the text form of a build id.
use vstd::prelude::*;

verus! {

/// The digit that stands for `d`: `0` to `9`, then `A` to `Z`, then `a` to `z`.
pub open spec fn digit(d: nat) -> char {
    if d < 10 {
        (48 + d) as char
    } else if d < 36 {
        (55 + d) as char
    } else {
        (61 + d) as char
    }
}

/// What a digit stands for; `None` for any other character.
pub open spec fn digit_value(c: char) -> Option<nat> {
    if '0' <= c <= '9' {
        Some((c as int - 48) as nat)
    } else if 'A' <= c <= 'Z' {
        Some((c as int - 55) as nat)
    } else if 'a' <= c <= 'z' {
        Some((c as int - 61) as nat)
    } else {
        None
    }
}

/// The base 62 numeral of `n`, without leading zeros.
pub open spec fn numeral(n: nat) -> Seq<char>
    decreases n,
{
    if n < 62 {
        seq![digit(n)]
    } else {
        numeral(n / 62).push(digit(n % 62))
    }
}

/// `s` is a base 62 numeral: at least one digit, and nothing but digits.
pub open spec fn is_numeral(s: Seq<char>) -> bool {
    &&& s.len() > 0
    &&& forall|i: int| 0 <= i < s.len() ==> digit_value(#[trigger] s[i]) is Some
}

/// The number that the digits of `s` stand for.
pub open spec fn numeral_value(s: Seq<char>) -> nat
    decreases s.len(),
{
    if s.len() == 0 {
        0
    } else {
        numeral_value(s.drop_last()) * 62 + digit_value(s.last())->0
    }
}

/// The number of at most 128 bits that `s` is a numeral of; leading zeros are allowed.
pub open spec fn decoded(s: Seq<char>) -> Option<u128> {
    if is_numeral(s) && numeral_value(s) <= u128::MAX {
        Some(numeral_value(s) as u128)
    } else {
        None
    }
}

/// `s` is a numeral without leading zeros.
pub open spec fn is_canonical(s: Seq<char>) -> bool {
    &&& is_numeral(s)
    &&& s.len() > 1 ==> s[0] != '0'
}

/// Calls `base62::encode`, which writes a number in base 62 with the digits `0` to `9`, `A` to
/// `Z`, `a` to `z`. The contract claims that it writes the numeral without leading zeros.
#[verifier::external_body]
pub(crate) fn encode(n: u128) -> (r: String)
    ensures
        r@ == numeral(n as nat),
{
    base62::encode(n)
}

/// Calls `base62::decode`, which reads a number of at most 128 bits from base 62 digits. The
/// contract claims that it reads every numeral whose value fits, with or without leading zeros,
/// and fails on the empty text, on any other character and on a value that does not fit.
#[verifier::external_body]
pub(crate) fn decode(s: &str) -> (r: Option<u128>)
    ensures
        r == decoded(s@),
{
    base62::decode(s).ok()
}

/// A numeral holds digits only, and has the value that it was written for.
pub proof fn lemma_numeral_value(n: nat)
    ensures
        is_numeral(numeral(n)),
        numeral_value(numeral(n)) == n,
    decreases n,
{
    if n < 62 {
        let s = numeral(n);
        assert(s.drop_last() =~= Seq::<char>::empty());
        assert(numeral_value(s.drop_last()) == 0);
        assert(digit_value(digit(n)) == Some(n));
    } else {
        lemma_numeral_value(n / 62);
        let s = numeral(n);
        assert(s.drop_last() =~= numeral(n / 62));
        assert(digit_value(digit(n % 62)) == Some(n % 62));
    }
}

/// Decoding gives back the number that was encoded.
pub proof fn law_decode_inverts_encode(n: u128)
    ensures
        decoded(numeral(n as nat)) == Some(n),
{
    lemma_numeral_value(n as nat);
}

/// Two numbers with the same numeral are the same number.
pub proof fn law_numerals_are_distinct(a: nat, b: nat)
    requires
        numeral(a) == numeral(b),
    ensures
        a == b,
{
    lemma_numeral_value(a);
    lemma_numeral_value(b);
}

/// Encoding gives back the text that was decoded, if that text has no leading zeros.
pub proof fn law_encode_inverts_decode(s: Seq<char>)
    requires
        is_canonical(s),
    ensures
        numeral(numeral_value(s)) == s,
    decreases s.len(),
{
    let head = s.drop_last();
    let d = digit_value(s.last())->0;
    assert(digit(d) == s.last());
    assert(d < 62);
    if s.len() == 1 {
        assert(head =~= Seq::<char>::empty());
        assert(numeral_value(head) == 0);
        assert(s =~= seq![s.last()]);
    } else {
        assert(head[0] == s[0]);
        assert(is_canonical(head)) by {
            assert forall|i: int| 0 <= i < head.len() implies digit_value(#[trigger] head[i]) is Some by {
                assert(head[i] == s[i]);
            }
        }
        law_encode_inverts_decode(head);
        lemma_leading_digit(head);
        let v = numeral_value(head);
        assert(numeral_value(s) == v * 62 + d);
        assert((v * 62 + d) / 62 == v);
        assert((v * 62 + d) % 62 == d);
        assert(numeral(v * 62 + d) == numeral(v).push(digit(d)));
        assert(s =~= head.push(s.last()));
    }
}

/// A numeral whose first digit is not zero has a value above zero.
proof fn lemma_leading_digit(s: Seq<char>)
    requires
        is_numeral(s),
        s[0] != '0',
    ensures
        numeral_value(s) > 0,
    decreases s.len(),
{
    let head = s.drop_last();
    assert(digit_value(s.last()) is Some);
    if s.len() > 1 {
        assert forall|i: int| 0 <= i < head.len() implies digit_value(#[trigger] head[i]) is Some by {
            assert(head[i] == s[i]);
        }
        lemma_leading_digit(head);
    }
}

/// A numeral is written without leading zeros.
pub proof fn law_numerals_have_no_leading_zeros(n: nat)
    ensures
        is_canonical(numeral(n)),
        n > 0 ==> numeral(n)[0] != '0',
    decreases n,
{
    lemma_numeral_value(n);
    if n >= 62 {
        law_numerals_have_no_leading_zeros(n / 62);
        assert(numeral(n)[0] == numeral(n / 62)[0]);
    }
}

} // verus!
