//! Proof of work: the nonce search against the difficulty target.

use vstd::prelude::*;
use crate::chain::Chain;
use crate::hasher::{hash_of_text, hex_digits, lemma_hex_unpadded_digits};
use crate::types::{header_fields_text, header_text, header_text_at, Blockheader};

verus! {

/// The text without a leading '+' sign, if it has one.
pub open spec fn unsigned_part(s: Seq<char>) -> Seq<char> {
    if s.len() > 0 && s[0] == '+' {
        s.skip(1)
    } else {
        s
    }
}

/// One or more '0' digits and nothing else.
pub open spec fn all_zero_digits(s: Seq<char>) -> bool {
    s.len() > 0 && forall|i: int| 0 <= i < s.len() ==> s[i] == '0'
}

/// What parses as the base-10 number zero: an optional '+' and then one or
/// more '0' digits.
pub open spec fn reads_as_zero(s: Seq<char>) -> bool {
    all_zero_digits(unsigned_part(s))
}

/// The first `difficulty` characters of `hash` read as the number zero.
pub open spec fn meets_difficulty(hash: Seq<char>, difficulty: nat) -> bool {
    difficulty <= hash.len() && reads_as_zero(hash.subrange(0, difficulty as int))
}

/// The hash of the header with these fields meets its difficulty.
pub open spec fn fields_solve(
    timestamp: i64,
    nonce: u32,
    pre_block_hash: Seq<char>,
    merkle: Seq<char>,
    difficulty: u32,
) -> bool {
    meets_difficulty(
        hash_of_text(header_fields_text(timestamp, nonce, pre_block_hash, merkle, difficulty)),
        difficulty as nat,
    )
}

/// With `nonce` in place of its own, the header's hash meets its difficulty.
pub open spec fn nonce_solves(h: Blockheader, nonce: u32) -> bool {
    fields_solve(h.timestamp, nonce, h.pre_block_hash@, h.merkle@, h.difficulty)
}

/// The two headers agree on every field but the nonce.
pub open spec fn same_but_nonce(a: Blockheader, b: Blockheader) -> bool {
    &&& a.timestamp == b.timestamp
    &&& a.pre_block_hash == b.pre_block_hash
    &&& a.merkle == b.merkle
    &&& a.difficulty == b.difficulty
}

/// A header that proof of work accepts has a hash whose first `difficulty`
/// characters are all '0', and there is at least one of them.
pub proof fn lemma_solved_prefix_zeros(h: Blockheader)
    requires
        nonce_solves(h, h.nonce),
    ensures
        1 <= h.difficulty <= hash_of_text(header_text(h)).len(),
        forall|i: int| 0 <= i < h.difficulty ==> hash_of_text(header_text(h))[i] == '0',
{
    let hash = hash_of_text(header_text(h));
    let prefix = hash.subrange(0, h.difficulty as int);
    lemma_hex_unpadded_digits(crate::hasher::sha256_of(vstd::utf8::encode_utf8(header_text(h))));
    if prefix.len() > 0 {
        assert(hex_digits().contains(hash[0]));
        let k = choose|k: int| 0 <= k < hex_digits().len() && hex_digits()[k] == hash[0];
        assert(hex_digits()[k] != '+');
    }
    assert(unsigned_part(prefix) == prefix);
    assert forall|i: int| 0 <= i < h.difficulty implies hash[i] == '0' by {
        assert(prefix[i] == hash[i]);
    }
}

/// Whether the first `difficulty` characters of `hash` parse as base-10 zero.
fn prefix_reads_as_zero(hash: &String, difficulty: u32) -> (r: bool)
    ensures
        r == meets_difficulty(hash@, difficulty as nat),
{
    let s = hash.as_str();
    let len = s.unicode_len();
    let d = difficulty as usize;
    if d > len {
        return false;
    }
    let ghost prefix = hash@.subrange(0, d as int);
    let mut i: usize = 0;
    if d > 0 && s.get_char(0) == '+' {
        i = 1;
    }
    let ghost start = i;
    let ghost digits = prefix.skip(start as int);
    assert(digits =~= unsigned_part(prefix));
    if i >= d {
        return false;
    }
    while i < d
        invariant
            start <= i <= d <= len,
            d == difficulty as usize,
            len == hash@.len(),
            s@ == hash@,
            prefix == hash@.subrange(0, d as int),
            digits == prefix.skip(start as int),
            digits.len() == d - start,
            digits == unsigned_part(prefix),
            forall|j: int| start <= j < i ==> hash@[j] == '0',
        decreases d - i,
    {
        if s.get_char(i) != '0' {
            assert(prefix[i as int] == hash@[i as int]);
            assert(digits[i - start] == prefix[i as int]);
            assert(!all_zero_digits(digits));
            assert(!reads_as_zero(prefix));
            return false;
        }
        i = i + 1;
    }
    assert forall|j: int| 0 <= j < digits.len() implies digits[j] == '0' by {
        assert(digits[j] == hash@[j + start]);
    }
    true
}

impl Chain {

/// Advances the header's nonce from its current value until the header's hash
/// meets its difficulty; only the nonce changes.
///
/// Returns true with the first solving nonce, or false when every nonce up to
/// `u32::MAX` has been tried without success.
pub fn proof_of_work(header: &mut Blockheader) -> (r: bool)
    ensures
        same_but_nonce(*final(header), *old(header)),
        old(header).nonce <= final(header).nonce,
        forall|n: u32|
            old(header).nonce <= n < final(header).nonce ==> !nonce_solves(*old(header), n),
        r == nonce_solves(*old(header), final(header).nonce),
        !r ==> final(header).nonce == u32::MAX,
{
    let ghost start = *header;
    loop
        invariant
            start == *old(header),
            same_but_nonce(*header, start),
            start.nonce <= header.nonce,
            forall|n: u32| start.nonce <= n < header.nonce ==> !nonce_solves(start, n),
        decreases u32::MAX - header.nonce,
    {
        let hash = Chain::hash(&*header);
        assert(header_text_at(*header, header.nonce) == header_text_at(start, header.nonce));
        if prefix_reads_as_zero(&hash, header.difficulty) {
            return true;
        }
        if header.nonce == u32::MAX {
            return false;
        }
        header.nonce = header.nonce + 1;
    }
}

}

} // verus!
