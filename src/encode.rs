//! Rendering numbers and bytes as text, and the digest of a canonical text.
use vstd::prelude::*;
use sha2::Digest;

verus! {

pub open spec fn hex_digits() -> Seq<char> {
    "0123456789abcdef"@
}

/// Two lower-case hexadecimal digits for each byte, most significant first.
pub open spec fn hex_of(b: Seq<u8>) -> Seq<char>
    decreases b.len(),
{
    if b.len() == 0 {
        Seq::empty()
    } else {
        hex_of(b.drop_last()).push(hex_digits()[(b.last() / 16) as int]).push(
            hex_digits()[(b.last() % 16) as int],
        )
    }
}

/// The decimal digits of a natural number.
pub open spec fn digits_of(n: nat) -> Seq<char>
    decreases n,
{
    if n < 10 {
        seq!["0123456789"@[n as int]]
    } else {
        digits_of(n / 10).push("0123456789"@[(n % 10) as int])
    }
}

/// An integer written in decimal, with a leading `-` when negative.
pub open spec fn decimal_of(n: int) -> Seq<char> {
    if n < 0 {
        seq!['-'] + digits_of((-n) as nat)
    } else {
        digits_of(n as nat)
    }
}

/// Writes a natural number in decimal digits.
pub fn decimal_text(n: u64) -> (r: String)
    ensures
        r@ == digits_of(n as nat),
    decreases n,
{
    let digits = "0123456789";
    proof {
        reveal_strlit("0123456789");
    }
    let d = (n % 10) as usize;
    let last = digits.substring_char(d, d + 1);
    assert(last@ =~= seq!["0123456789"@[d as int]]);
    if n < 10 {
        last.to_owned()
    } else {
        let mut t = decimal_text(n / 10);
        t.append(last);
        t
    }
}

/// Writes a signed integer in decimal.
pub fn signed_decimal_text(n: i32) -> (r: String)
    ensures
        r@ == decimal_of(n as int),
{
    if n < 0 {
        let magnitude: u64 = (0i64 - n as i64) as u64;
        let digits = decimal_text(magnitude);
        let mut out = "-".to_owned();
        out.append(digits.as_str());
        proof {
            reveal_strlit("-");
        }
        out
    } else {
        decimal_text(n as u64)
    }
}

/// The SHA-256 digest of a byte sequence.
pub uninterp spec fn sha256_of(data: Seq<u8>) -> Seq<u8>;

/// Relies on `sha2::Sha256::digest`: the SHA-256 digest of the bytes, which
/// is 32 bytes long.
#[verifier::external_body]
pub(crate) fn sha256(data: &[u8]) -> (r: Vec<u8>)
    ensures
        r@ == sha256_of(data@),
        r@.len() == 32,
{
    sha2::Sha256::digest(data).to_vec()
}

/// Every character of `s` is a lower-case hexadecimal digit.
pub open spec fn is_hex_text(s: Seq<char>) -> bool {
    forall|i: int| 0 <= i < s.len() ==> hex_digits().contains(#[trigger] s[i])
}

/// Hexadecimal text has two lower-case digits for each byte.
pub proof fn lemma_hex_of(b: Seq<u8>)
    ensures
        hex_of(b).len() == 2 * b.len(),
        is_hex_text(hex_of(b)),
    decreases b.len(),
{
    reveal_strlit("0123456789abcdef");
    if b.len() > 0 {
        lemma_hex_of(b.drop_last());
        let h = hex_of(b);
        let p = hex_of(b.drop_last());
        let hi = (b.last() / 16) as int;
        let lo = (b.last() % 16) as int;
        assert(hex_digits().contains(hex_digits()[hi]));
        assert(hex_digits().contains(hex_digits()[lo]));
        assert forall|i: int| 0 <= i < h.len() implies hex_digits().contains(#[trigger] h[i]) by {
            if i < p.len() {
                assert(h[i] == p[i]);
            }
        }
    }
}

/// Renders bytes as lower-case hexadecimal text.
pub fn to_hex(bytes: &[u8]) -> (r: String)
    ensures
        r@ == hex_of(bytes@),
{
    let digits = "0123456789abcdef";
    proof {
        reveal_strlit("0123456789abcdef");
    }
    let mut out = String::new();
    let mut i: usize = 0;
    while i < bytes.len()
        invariant
            i <= bytes@.len(),
            digits@ == hex_digits(),
            digits@.len() == 16,
            out@ == hex_of(bytes@.subrange(0, i as int)),
        decreases bytes@.len() - i,
    {
        let b = bytes[i];
        let hi = (b / 16) as usize;
        let lo = (b % 16) as usize;
        out.append(digits.substring_char(hi, hi + 1));
        out.append(digits.substring_char(lo, lo + 1));
        proof {
            let s = bytes@.subrange(0, i + 1);
            assert(s.drop_last() == bytes@.subrange(0, i as int));
            assert(digits@.subrange(hi as int, hi + 1) == seq![hex_digits()[hi as int]]);
            assert(digits@.subrange(lo as int, lo + 1) == seq![hex_digits()[lo as int]]);
        }
        i += 1;
    }
    assert(bytes@.subrange(0, bytes@.len() as int) == bytes@);
    out
}

} // verus!
