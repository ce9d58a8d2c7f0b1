//! The Merkle root of a transaction list, reduced pairwise from the front.

use vstd::prelude::*;
use crate::chain::Chain;
use crate::hasher::{hash_of_text, json_string_of};
use crate::types::{transaction_text, Transaction};

verus! {

/// The Merkle root of an empty transaction list was asked for.
#[derive(Debug, PartialEq, Eq)]
pub struct EmptyInputError;

/// The contents of a list of strings.
pub open spec fn string_views(v: Seq<String>) -> Seq<Seq<char>> {
    v.map_values(|s: String| s@)
}

/// An odd-length level gets its last hash once more.
pub open spec fn pad_even(level: Seq<Seq<char>>) -> Seq<Seq<char>> {
    if level.len() % 2 == 1 {
        level.push(level.last())
    } else {
        level
    }
}

/// The parent of two hashes: the hash of their concatenation, as a string record.
pub open spec fn pair_hash(left: Seq<char>, right: Seq<char>) -> Seq<char> {
    hash_of_text(json_string_of(left + right))
}

/// Takes the two hashes at the front, appends their parent at the back, until
/// one hash is left.
pub open spec fn reduce_front(queue: Seq<Seq<char>>) -> Seq<char>
    decreases queue.len(),
{
    if queue.len() == 0 {
        Seq::empty()
    } else if queue.len() == 1 {
        queue[0]
    } else {
        reduce_front(queue.subrange(2, queue.len() as int).push(pair_hash(queue[0], queue[1])))
    }
}

/// The Merkle root over the canonical texts of a list of transactions.
pub open spec fn merkle_of_texts(texts: Seq<Seq<char>>) -> Seq<char> {
    reduce_front(pad_even(texts.map_values(|t: Seq<char>| hash_of_text(t))))
}

/// The Merkle root of a list of transactions.
pub open spec fn merkle_root(txs: Seq<Transaction>) -> Seq<char> {
    merkle_of_texts(txs.map_values(|t: Transaction| transaction_text(t)))
}

/// The Merkle root depends on the transactions' contents alone: lists whose
/// transactions agree field by field have the same root.
pub proof fn lemma_merkle_deterministic(a: Seq<Transaction>, b: Seq<Transaction>)
    requires
        a.len() == b.len(),
        forall|i: int|
            0 <= i < a.len() ==> {
                &&& (#[trigger] a[i]).sender_address@ == b[i].sender_address@
                &&& a[i].receiver_address@ == b[i].receiver_address@
                &&& a[i].amount@ == b[i].amount@
            },
    ensures
        merkle_root(a) == merkle_root(b),
{
    assert(a.map_values(|t: Transaction| transaction_text(t)) =~= b.map_values(
        |t: Transaction| transaction_text(t),
    ));
}

/// The root of one transaction: its hash is padded to a pair, and the pair's
/// parent is the root.
pub proof fn lemma_merkle_single(t: Transaction)
    ensures
        merkle_root(seq![t]) == pair_hash(
            hash_of_text(transaction_text(t)),
            hash_of_text(transaction_text(t)),
        ),
{
    let h = hash_of_text(transaction_text(t));
    let leaves = seq![t].map_values(|x: Transaction| transaction_text(x)).map_values(
        |x: Seq<char>| hash_of_text(x),
    );
    assert(leaves =~= seq![h]);
    assert(pad_even(leaves) =~= seq![h, h]);
    let next = seq![h, h].subrange(2, 2).push(pair_hash(h, h));
    assert(next =~= seq![pair_hash(h, h)]);
    assert(reduce_front(seq![h, h]) == reduce_front(next));
}

impl Chain {

/// The Merkle root of `curr_trans`, or `EmptyInputError` when it is empty.
pub fn get_merkle(curr_trans: &Vec<Transaction>) -> (r: Result<String, EmptyInputError>)
    ensures
        match r {
            Ok(root) => curr_trans@.len() > 0 && root@ == merkle_root(curr_trans@),
            Err(_) => curr_trans@.len() == 0,
        },
{
    if curr_trans.len() == 0 {
        return Err(EmptyInputError);
    }
    let ghost leaves = curr_trans@.map_values(|t: Transaction| transaction_text(t)).map_values(
        |t: Seq<char>| hash_of_text(t),
    );
    let mut merkle: Vec<String> = Vec::new();
    let mut i: usize = 0;
    while i < curr_trans.len()
        invariant
            i <= curr_trans@.len(),
            merkle@.len() == i,
            leaves.len() == curr_trans@.len(),
            leaves == curr_trans@.map_values(|t: Transaction| transaction_text(t)).map_values(
                |t: Seq<char>| hash_of_text(t),
            ),
            string_views(merkle@) =~= leaves.subrange(0, i as int),
        decreases curr_trans@.len() - i,
    {
        let h = Chain::hash(&curr_trans[i]);
        assert(leaves[i as int] == hash_of_text(transaction_text(curr_trans@[i as int])));
        let ghost old_merkle = merkle@;
        merkle.push(h);
        i = i + 1;
        assert forall|k: int| 0 <= k < i implies string_views(merkle@)[k] == leaves[k] by {
            if k < i - 1 {
                assert(merkle@[k] == old_merkle[k]);
                assert(string_views(old_merkle)[k] == leaves.subrange(0, i - 1)[k]);
            }
        }
        assert(string_views(merkle@) =~= leaves.subrange(0, i as int));
    }
    assert(leaves.subrange(0, i as int) =~= leaves);
    if merkle.len() % 2 == 1 {
        let last = merkle[merkle.len() - 1].clone();
        merkle.push(last);
        assert(string_views(merkle@) =~= pad_even(leaves));
    }
    let ghost target = reduce_front(pad_even(leaves));
    assert(reduce_front(string_views(merkle@)) == target);
    while merkle.len() > 1
        invariant
            merkle@.len() >= 1,
            reduce_front(string_views(merkle@)) == target,
        decreases merkle@.len(),
    {
        let ghost before = string_views(merkle@);
        let mut h1 = merkle.remove(0);
        let h2 = merkle.remove(0);
        h1.append(h2.as_str());
        let nh = Chain::hash(&h1);
        merkle.push(nh);
        assert(string_views(merkle@) =~= before.subrange(2, before.len() as int).push(
            pair_hash(before[0], before[1]),
        ));
    }
    match merkle.pop() {
        Some(root) => Ok(root),
        None => Err(EmptyInputError),
    }
}

}

} // verus!
