//! The chain: pending transactions, sealing, and the sealed blocks.

use vstd::prelude::*;
use crate::hasher::hash_of_text;
use crate::merkle::{merkle_of_texts, merkle_root};
use crate::types::{header_text, transaction_fields_text, transaction_text, Block, Blockheader, Transaction};
use crate::work::{fields_solve, nonce_solves};

verus! {

/// The sealed blocks, the pending pool and the settings for the next seal.
pub struct Chain {
    chain: Vec<Block>,
    curr_trans: Vec<Transaction>,
    reward: String,
    difficulty: u32,
    miner_address: String,
}

/// The state of a chain.
pub struct ChainView {
    pub blocks: Seq<Block>,
    pub pending: Seq<Transaction>,
    /// The amount of the next reward, as JSON number text.
    pub reward: Seq<char>,
    pub difficulty: u32,
    pub miner: Seq<char>,
}

impl View for Chain {
    type V = ChainView;

    closed spec fn view(&self) -> ChainView {
        ChainView {
            blocks: self.chain@,
            pending: self.curr_trans@,
            reward: self.reward@,
            difficulty: self.difficulty,
            miner: self.miner_address@,
        }
    }
}

/// The sender of every reward transaction.
pub open spec fn reward_sender() -> Seq<char> {
    "chain emissions"@
}

/// The reward of a new chain, as JSON number text.
pub open spec fn initial_reward() -> Seq<char> {
    "123.12"@
}

/// The previous-block hash of the genesis block: 64 '0' characters.
pub open spec fn zero_hash() -> Seq<char> {
    Seq::new(64, |i: int| '0')
}

/// The content hash of a header.
pub open spec fn header_hash(h: Blockheader) -> Seq<char> {
    hash_of_text(header_text(h))
}

/// The hash of the last block's header, or `zero_hash` when there is none.
pub open spec fn last_hash_of(blocks: Seq<Block>) -> Seq<char> {
    if blocks.len() == 0 {
        zero_hash()
    } else {
        header_hash(blocks.last().header)
    }
}

/// A block as sealing leaves it for a chain whose miner is `miner`.
pub open spec fn block_wf(b: Block, miner: Seq<char>) -> bool {
    &&& b.transactions@.len() >= 1
    &&& b.transaction_count as int == b.transactions@.len()
    &&& b.transactions@[0].sender_address@ == reward_sender()
    &&& b.transactions@[0].receiver_address@ == miner
    &&& b.header.merkle@ == merkle_root(b.transactions@)
    &&& nonce_solves(b.header, b.header.nonce)
}

/// Every block is well formed and refers to the hash of the one before it, the
/// first one to `zero_hash`.
pub open spec fn chain_wf(v: ChainView) -> bool {
    &&& forall|i: int| 0 <= i < v.blocks.len() ==> block_wf(#[trigger] v.blocks[i], v.miner)
    &&& forall|i: int|
        0 <= i < v.blocks.len() ==> (#[trigger] v.blocks[i]).header.pre_block_hash@
            == last_hash_of(v.blocks.subrange(0, i))
}

/// The canonical texts of the transactions that sealing would put in the next
/// block: the reward, then the pending pool in order.
pub open spec fn seal_texts(v: ChainView) -> Seq<Seq<char>> {
    seq![transaction_fields_text(reward_sender(), v.miner, v.reward)] + v.pending.map_values(
        |t: Transaction| transaction_text(t),
    )
}

/// Some nonce solves the header that sealing at `timestamp` would build.
pub open spec fn mineable(v: ChainView, timestamp: i64) -> bool {
    exists|n: u32|
        fields_solve(
            timestamp,
            n,
            last_hash_of(v.blocks),
            merkle_of_texts(seal_texts(v)),
            v.difficulty,
        )
}

/// `post` is `pre` with one block sealed at `timestamp`: the reward and the
/// pending pool moved into it, and the first nonce that solves its header.
pub open spec fn sealed(pre: ChainView, post: ChainView, timestamp: i64) -> bool {
    let b = post.blocks.last();
    &&& post.blocks.len() == pre.blocks.len() + 1
    &&& post.blocks.drop_last() == pre.blocks
    &&& post.pending.len() == 0
    &&& post.reward == pre.reward
    &&& post.difficulty == pre.difficulty
    &&& post.miner == pre.miner
    &&& b.header.timestamp == timestamp
    &&& b.header.pre_block_hash@ == last_hash_of(pre.blocks)
    &&& b.header.difficulty == pre.difficulty
    &&& b.transactions@.len() == pre.pending.len() + 1
    &&& b.transaction_count as int == b.transactions@.len()
    &&& b.transactions@[0].sender_address@ == reward_sender()
    &&& b.transactions@[0].receiver_address@ == pre.miner
    &&& b.transactions@[0].amount@ == pre.reward
    &&& b.transactions@.skip(1) == pre.pending
    &&& b.header.merkle@ == merkle_root(b.transactions@)
    &&& nonce_solves(b.header, b.header.nonce)
    &&& forall|n: u32| n < b.header.nonce ==> !nonce_solves(b.header, n)
}

/// Every block after the first records the hash of the header of the block
/// before it.
pub proof fn lemma_blocks_linked(c: Chain)
    requires
        c.wf(),
    ensures
        forall|i: int|
            0 < i < c@.blocks.len() ==> (#[trigger] c@.blocks[i]).header.pre_block_hash@
                == header_hash(c@.blocks[i - 1].header),
{
    assert forall|i: int| 0 < i < c@.blocks.len() implies (#[trigger] c@.blocks[i]).header.pre_block_hash@
        == header_hash(c@.blocks[i - 1].header) by {
        assert(c@.blocks.subrange(0, i).last() == c@.blocks[i - 1]);
    }
}

/// The genesis block records 64 '0' characters as its previous-block hash.
pub proof fn lemma_genesis_sentinel(c: Chain)
    requires
        c.wf(),
        c@.blocks.len() > 0,
    ensures
        c@.blocks[0].header.pre_block_hash@ == zero_hash(),
        zero_hash().len() == 64,
        forall|i: int| 0 <= i < 64 ==> zero_hash()[i] == '0',
{
    assert(c@.blocks[0].header.pre_block_hash@ == last_hash_of(c@.blocks.subrange(0, 0)));
}

/// Every block counts its transactions, and its first transaction is the
/// reward from `reward_sender` to the chain's miner.
pub proof fn lemma_reward_first(c: Chain)
    requires
        c.wf(),
    ensures
        forall|i: int|
            0 <= i < c@.blocks.len() ==> {
                &&& (#[trigger] c@.blocks[i]).transaction_count as int
                    == c@.blocks[i].transactions@.len()
                &&& c@.blocks[i].transactions@[0].sender_address@ == reward_sender()
                &&& c@.blocks[i].transactions@[0].receiver_address@ == c@.miner
            },
{
    assert forall|i: int| 0 <= i < c@.blocks.len() implies {
        &&& (#[trigger] c@.blocks[i]).transaction_count as int == c@.blocks[i].transactions@.len()
        &&& c@.blocks[i].transactions@[0].sender_address@ == reward_sender()
        &&& c@.blocks[i].transactions@[0].receiver_address@ == c@.miner
    } by {
        assert(block_wf(c@.blocks[i], c@.miner));
    }
}

/// A sealed block's reward is the chain's reward at the time of sealing, paid
/// to its miner.
pub proof fn lemma_sealed_reward(pre: ChainView, post: ChainView, timestamp: i64)
    requires
        sealed(pre, post, timestamp),
    ensures
        post.blocks.last().transactions@[0].amount@ == pre.reward,
        post.blocks.last().transactions@[0].receiver_address@ == pre.miner,
        post.blocks.last().transactions@[0].sender_address@ == reward_sender(),
{
}

/// Sealing empties the pending pool: a second seal with no submission in
/// between makes a block that holds the reward alone.
pub proof fn lemma_second_seal_reward_only(
    first: ChainView,
    second: ChainView,
    third: ChainView,
    t1: i64,
    t2: i64,
)
    requires
        sealed(first, second, t1),
        sealed(second, third, t2),
    ensures
        second.pending.len() == 0,
        third.blocks.last().transactions@.len() == 1,
{
}

/// A chain before its genesis block.
pub open spec fn unsealed(miner: Seq<char>, difficulty: u32) -> ChainView {
    ChainView {
        blocks: Seq::empty(),
        pending: Seq::empty(),
        reward: initial_reward(),
        difficulty,
        miner,
    }
}

/// Relies on chrono's `Utc::now` and `DateTime::timestamp_millis`: the current
/// wall-clock time in milliseconds since the epoch.
#[verifier::external_body]
fn now_millis() -> (r: i64) {
    chrono::Utc::now().timestamp_millis()
}

impl Chain {
    pub open spec fn wf(&self) -> bool {
        chain_wf(self@)
    }

    /// A chain whose genesis block is sealed at `timestamp`; it stays empty
    /// when no nonce solves the genesis header.
    pub fn new_at(miner_address: String, difficulty: u32, timestamp: i64) -> (c: Chain)
        ensures
            c.wf(),
            mineable(unsealed(miner_address@, difficulty), timestamp) ==> sealed(
                unsealed(miner_address@, difficulty),
                c@,
                timestamp,
            ),
            !mineable(unsealed(miner_address@, difficulty), timestamp) ==> c@ == unsealed(
                miner_address@,
                difficulty,
            ),
    {
        let mut reward = String::new();
        reward.append("123.12");
        let mut c = Chain {
            chain: Vec::new(),
            curr_trans: Vec::new(),
            reward,
            difficulty,
            miner_address,
        };
        assert(c@ == unsealed(c.miner_address@, difficulty));
        c.seal_block_at(timestamp);
        c
    }

    /// A chain whose genesis block is sealed at the current time.
    pub fn new(miner_address: String, difficulty: u32) -> (c: Chain)
        ensures
            c.wf(),
            exists|t: i64|
                {
                    &&& mineable(unsealed(miner_address@, difficulty), t) ==> sealed(
                        unsealed(miner_address@, difficulty),
                        c@,
                        t,
                    )
                    &&& !mineable(unsealed(miner_address@, difficulty), t) ==> c@ == unsealed(
                        miner_address@,
                        difficulty,
                    )
                },
    {
        let timestamp = now_millis();
        Chain::new_at(miner_address, difficulty, timestamp)
    }

    /// Adds a transaction to the pending pool; there is no validation, and it
    /// always succeeds.
    pub fn new_transaction(
        &mut self,
        sender_address: String,
        receiver_address: String,
        amount: String,
    ) -> (r: bool)
        requires
            old(self).wf(),
        ensures
            r,
            final(self).wf(),
            final(self)@.pending == old(self)@.pending.push(
                Transaction { sender_address, receiver_address, amount },
            ),
            final(self)@.blocks == old(self)@.blocks,
            final(self)@.reward == old(self)@.reward,
            final(self)@.difficulty == old(self)@.difficulty,
            final(self)@.miner == old(self)@.miner,
    {
        let ghost pre = self@;
        self.curr_trans.push(Transaction { sender_address, receiver_address, amount });
        assert(self@.blocks == pre.blocks && self@.miner == pre.miner);
        true
    }

    /// The hash of the last block's header, or 64 '0' characters when there is
    /// no block.
    pub fn last_hash(&self) -> (r: String)
        ensures
            r@ == last_hash_of(self@.blocks),
    {
        if self.chain.len() == 0 {
            let mut zeros = String::new();
            zeros.append("0000000000000000000000000000000000000000000000000000000000000000");
            proof {
                reveal_strlit("0000000000000000000000000000000000000000000000000000000000000000");
            }
            assert(zeros@ =~= zero_hash());
            zeros
        } else {
            Chain::hash(&self.chain[self.chain.len() - 1].header)
        }
    }

    /// Sets the difficulty of the blocks sealed from now on; always succeeds.
    pub fn update_difficulty(&mut self, difficulty: u32) -> (r: bool)
        requires
            old(self).wf(),
        ensures
            r,
            final(self).wf(),
            final(self)@ == (ChainView { difficulty, ..old(self)@ }),
    {
        self.difficulty = difficulty;
        true
    }

    /// Sets the reward of the blocks sealed from now on; always succeeds.
    pub fn update_reward(&mut self, reward: String) -> (r: bool)
        requires
            old(self).wf(),
        ensures
            r,
            final(self).wf(),
            final(self)@ == (ChainView { reward: reward@, ..old(self)@ }),
    {
        self.reward = reward;
        true
    }

    /// Seals a block at `timestamp`: the reward and the pending pool, the
    /// Merkle root, the first solving nonce, appended to the chain.
    ///
    /// Returns false, and changes nothing, when no nonce solves the header.
    pub fn seal_block_at(&mut self, timestamp: i64) -> (r: bool)
        requires
            old(self).wf(),
            old(self)@.pending.len() < u32::MAX,
        ensures
            final(self).wf(),
            r == mineable(old(self)@, timestamp),
            r ==> sealed(old(self)@, final(self)@, timestamp),
            !r ==> final(self)@ == old(self)@,
    {
        let ghost pre = self@;
        let pre_block_hash = self.last_hash();
        let mut sender_address = String::new();
        sender_address.append("chain emissions");
        let reward_trans = Transaction {
            sender_address,
            receiver_address: self.miner_address.clone(),
            amount: self.reward.clone(),
        };
        let mut transactions: Vec<Transaction> = Vec::new();
        transactions.push(reward_trans);
        transactions.append(&mut self.curr_trans);
        let ghost texts = transactions@.map_values(|t: Transaction| transaction_text(t));
        assert(texts =~= seal_texts(pre)) by {
            assert forall|k: int| 0 <= k < texts.len() implies texts[k] == seal_texts(pre)[k] by {
                if k > 0 {
                    assert(transactions@[k] == pre.pending[k - 1]);
                }
            }
        }
        let transaction_count = transactions.len() as u32;
        let merkle = match Chain::get_merkle(&transactions) {
            Ok(root) => root,
            Err(_) => {
                transactions.remove(0);
                self.curr_trans = transactions;
                return false;
            },
        };
        let mut header = Blockheader {
            timestamp,
            nonce: 0,
            pre_block_hash,
            merkle,
            difficulty: self.difficulty,
        };
        let ghost header0 = header;
        if Chain::proof_of_work(&mut header) {
            let block = Block { header, transaction_count, transactions };
            self.chain.push(block);
            proof {
                let post = self@;
                assert(post.blocks.drop_last() =~= pre.blocks);
                assert(block.transactions@.skip(1) =~= pre.pending);
                assert forall|i: int| 0 <= i < post.blocks.len() implies (#[trigger] post.blocks[i]).header.pre_block_hash@
                    == last_hash_of(post.blocks.subrange(0, i)) by {
                    if i < pre.blocks.len() {
                        assert(post.blocks.subrange(0, i) =~= pre.blocks.subrange(0, i));
                    } else {
                        assert(post.blocks.subrange(0, i) =~= pre.blocks);
                    }
                }
                assert forall|n: u32| n < block.header.nonce implies !nonce_solves(block.header, n) by {
                    assert(!nonce_solves(header0, n));
                }
                assert(header0.merkle@ == merkle_of_texts(seal_texts(pre)));
                assert(fields_solve(
                    timestamp,
                    block.header.nonce,
                    last_hash_of(pre.blocks),
                    merkle_of_texts(seal_texts(pre)),
                    pre.difficulty,
                ));
            }
            true
        } else {
            proof {
                assert forall|n: u32| !fields_solve(
                    timestamp,
                    n,
                    last_hash_of(pre.blocks),
                    merkle_of_texts(seal_texts(pre)),
                    pre.difficulty,
                ) by {
                    assert(!nonce_solves(header0, n));
                }
            }
            transactions.remove(0);
            self.curr_trans = transactions;
            assert(self.curr_trans@ =~= pre.pending);
            false
        }
    }

    /// Seals a block at the current time; see `seal_block_at`.
    pub fn create_new_block(&mut self) -> (r: bool)
        requires
            old(self).wf(),
            old(self)@.pending.len() < u32::MAX,
        ensures
            final(self).wf(),
            r ==> exists|t: i64| sealed(old(self)@, final(self)@, t),
            !r ==> final(self)@ == old(self)@,
    {
        let timestamp = now_millis();
        self.seal_block_at(timestamp)
    }

    /// The sealed blocks, genesis first.
    pub fn blocks(&self) -> (r: &Vec<Block>)
        ensures
            r@ == self@.blocks,
    {
        &self.chain
    }

    /// The transactions that the next seal will take.
    pub fn pending_transactions(&self) -> (r: &Vec<Transaction>)
        ensures
            r@ == self@.pending,
    {
        &self.curr_trans
    }

    /// The reward of the next block, as JSON number text.
    pub fn reward(&self) -> (r: &String)
        ensures
            r@ == self@.reward,
    {
        &self.reward
    }

    /// The difficulty of the next block.
    pub fn difficulty(&self) -> (r: u32)
        ensures
            r == self@.difficulty,
    {
        self.difficulty
    }

    /// The receiver of every reward.
    pub fn miner_address(&self) -> (r: &String)
        ensures
            r@ == self@.miner,
    {
        &self.miner_address
    }
}

} // verus!
