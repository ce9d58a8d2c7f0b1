//! Content hashing: canonical text of a record, SHA-256 over its UTF-8 bytes,
//! and the unpadded lowercase hex form of the digest.

use vstd::prelude::*;
use crate::chain::Chain;
use crate::types::Record;

verus! {

/// The sixteen lowercase hex digits in order.
pub open spec fn hex_digits() -> Seq<char> {
    seq!['0', '1', '2', '3', '4', '5', '6', '7', '8', '9', 'a', 'b', 'c', 'd', 'e', 'f']
}

/// One byte in lowercase hex without zero-padding: a byte below 16 gives a
/// single digit.
pub open spec fn byte_hex(b: u8) -> Seq<char> {
    if b < 16 {
        seq![hex_digits()[b as int]]
    } else {
        seq![hex_digits()[(b / 16) as int], hex_digits()[(b % 16) as int]]
    }
}

/// Every byte in turn, each in the unpadded form of `byte_hex`.
pub open spec fn hex_unpadded(bytes: Seq<u8>) -> Seq<char>
    decreases bytes.len(),
{
    if bytes.len() == 0 {
        Seq::empty()
    } else {
        hex_unpadded(bytes.drop_last()) + byte_hex(bytes.last())
    }
}

/// The SHA-256 digest of a byte sequence.
pub uninterp spec fn sha256_of(bytes: Seq<u8>) -> Seq<u8>;

/// The JSON text of a string: the string quoted, with its special characters
/// escaped.
pub uninterp spec fn json_string_of(s: Seq<char>) -> Seq<char>;

/// The base-10 digits of a natural number, without leading zeros.
pub open spec fn decimal_digits(n: nat) -> Seq<char>
    decreases n,
{
    if n < 10 {
        seq![hex_digits()[n as int]]
    } else {
        decimal_digits(n / 10) + seq![hex_digits()[(n % 10) as int]]
    }
}

/// The JSON text of an integer: its base-10 digits, after a '-' when negative.
pub open spec fn decimal_text(n: int) -> Seq<char> {
    if n < 0 {
        seq!['-'] + decimal_digits((-n) as nat)
    } else {
        decimal_digits(n as nat)
    }
}

/// The content hash of a canonical text.
pub open spec fn hash_of_text(text: Seq<char>) -> Seq<char> {
    hex_unpadded(sha256_of(vstd::utf8::encode_utf8(text)))
}

/// Unpadded hex is made of lowercase hex digits only.
pub proof fn lemma_hex_unpadded_digits(bytes: Seq<u8>)
    ensures
        forall|i: int|
            0 <= i < hex_unpadded(bytes).len() ==> hex_digits().contains(
                #[trigger] hex_unpadded(bytes)[i],
            ),
    decreases bytes.len(),
{
    if bytes.len() > 0 {
        lemma_hex_unpadded_digits(bytes.drop_last());
        let front = hex_unpadded(bytes.drop_last());
        let tail = byte_hex(bytes.last());
        let b = bytes.last();
        assert forall|i: int| 0 <= i < tail.len() implies hex_digits().contains(#[trigger] tail[i]) by {
            if b < 16 {
                assert(tail[i] == hex_digits()[b as int]);
            } else if i == 0 {
                assert(tail[i] == hex_digits()[(b / 16) as int]);
            } else {
                assert(tail[i] == hex_digits()[(b % 16) as int]);
            }
        }
        assert forall|i: int| 0 <= i < hex_unpadded(bytes).len() implies hex_digits().contains(
            #[trigger] hex_unpadded(bytes)[i],
        ) by {
            if i < front.len() {
                assert(hex_unpadded(bytes)[i] == front[i]);
            } else {
                assert(hex_unpadded(bytes)[i] == tail[i - front.len()]);
            }
        }
    }
}

/// Relies on sha2's `Sha256::digest`: the 32-byte SHA-256 digest of the input.
#[verifier::external_body]
fn sha256(bytes: &[u8]) -> (r: Vec<u8>)
    ensures
        r@ == sha256_of(bytes@),
        r@.len() == 32,
{
    <sha2::Sha256 as sha2::Digest>::digest(bytes).to_vec()
}

/// Relies on `serde_json::to_string` on a `str`, which writes the quoted and
/// escaped string into a `Vec` and cannot fail there.
#[verifier::external_body]
pub(crate) fn json_string(s: &str) -> (r: String)
    ensures
        r@ == json_string_of(s@),
{
    match serde_json::to_string(s) {
        Ok(text) => text,
        Err(_) => String::new(),
    }
}

/// Relies on `serde_json::to_string` on an `i64`, which writes the integer in
/// base 10 (through `itoa`) and cannot fail there.
#[verifier::external_body]
pub(crate) fn json_integer(n: i64) -> (r: String)
    ensures
        r@ == decimal_text(n as int),
{
    match serde_json::to_string(&n) {
        Ok(text) => text,
        Err(_) => String::new(),
    }
}

/// The one-character string of a hex digit.
fn hex_digit_str(d: u8) -> (r: &'static str)
    requires
        d < 16,
    ensures
        r@ == seq![hex_digits()[d as int]],
{
    let digits = "0123456789abcdef";
    proof {
        reveal_strlit("0123456789abcdef");
    }
    let r = digits.substring_char(d as usize, d as usize + 1);
    assert(r@ =~= seq![hex_digits()[d as int]]);
    r
}

impl Chain {

/// Lowercase hex of each byte, a byte below 16 giving one digit, none padded.
pub fn hex_to_string(bytes: &[u8]) -> (r: String)
    ensures
        r@ == hex_unpadded(bytes@),
{
    let mut s = String::new();
    let mut i: usize = 0;
    while i < bytes.len()
        invariant
            i <= bytes@.len(),
            s@ == hex_unpadded(bytes@.subrange(0, i as int)),
        decreases bytes@.len() - i,
    {
        let b = bytes[i];
        if b >= 16 {
            s.append(hex_digit_str(b / 16));
        }
        s.append(hex_digit_str(b % 16));
        proof {
            let pre = bytes@.subrange(0, i as int + 1);
            assert(pre.drop_last() =~= bytes@.subrange(0, i as int));
            assert(pre.last() == b);
        }
        i = i + 1;
        assert(s@ =~= hex_unpadded(bytes@.subrange(0, i as int)));
    }
    assert(bytes@.subrange(0, i as int) =~= bytes@);
    s
}

/// The content hash of a record: SHA-256 of the UTF-8 bytes of its canonical
/// text, in unpadded hex.
pub fn hash<T: Record>(item: &T) -> (r: String)
    ensures
        r@ == hash_of_text(item.record_text()),
{
    let text = item.canonical_text();
    let digest = sha256(text.as_str().as_bytes());
    Chain::hex_to_string(digest.as_slice())
}

}

} // verus!
