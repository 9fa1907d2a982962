//! The chain: a genesis block followed by sealed blocks, each holding the digest
//! of the one before it, under one difficulty fixed at construction.

use crate::block::{Block, SealError};
use crate::digest::{digest_of, has_leading_zeros, sealable, DIGEST_HEX_LEN};
use vstd::prelude::*;

verus! {

/// Every block after the first holds the digest of the block before it.
pub open spec fn chain_is_linked(blocks: Seq<Block>) -> bool {
    forall|i: int| 1 <= i < blocks.len() ==> #[trigger] blocks[i].previous_hash@ == blocks[i - 1].hash@
}

/// Every block's stored digest is the digest of its fields.
pub open spec fn chain_is_consistent(blocks: Seq<Block>) -> bool {
    forall|i: int| 0 <= i < blocks.len() ==> #[trigger] blocks[i].is_consistent()
}

/// What validation accepts: stored digests are right, and the blocks are linked.
pub open spec fn chain_is_valid(blocks: Seq<Block>) -> bool {
    chain_is_consistent(blocks) && chain_is_linked(blocks)
}

/// Every block after the first has a digest that begins with `difficulty` zeros.
pub open spec fn chain_is_sealed(blocks: Seq<Block>, difficulty: nat) -> bool {
    forall|i: int| 1 <= i < blocks.len() ==> has_leading_zeros(#[trigger] blocks[i].hash@, difficulty)
}

/// Every block's index is its position.
pub open spec fn chain_is_numbered(blocks: Seq<Block>) -> bool {
    forall|i: int| 0 <= i < blocks.len() ==> #[trigger] blocks[i].index == i
}

/// `b` is the genesis block: index 0, the sentinel predecessor "0", the fixed
/// payload, nonce 0 and a consistent digest.
pub open spec fn is_genesis(b: Block) -> bool {
    &&& b.index == 0
    &&& b.previous_hash@ == "0"@
    &&& b.data@ == "Genesis Block"@
    &&& b.nonce == 0
    &&& b.is_consistent()
}

/// Appending a block that holds the tail's digest, has a consistent digest of at
/// least `difficulty` leading zeros, and the next index, keeps each of the
/// chain's properties exactly as it was: linkage, validity, the work factor and
/// the numbering of blocks by position.
pub proof fn append_keeps_invariants(blocks: Seq<Block>, b: Block, difficulty: nat)
    requires
        blocks.len() > 0,
        b.previous_hash@ == blocks.last().hash@,
        b.index == blocks.last().index + 1,
        b.is_consistent(),
        has_leading_zeros(b.hash@, difficulty),
    ensures
        chain_is_linked(blocks.push(b)) == chain_is_linked(blocks),
        chain_is_valid(blocks.push(b)) == chain_is_valid(blocks),
        chain_is_sealed(blocks.push(b), difficulty) == chain_is_sealed(blocks, difficulty),
        chain_is_numbered(blocks.push(b)) == chain_is_numbered(blocks),
{
    let longer = blocks.push(b);
    assert forall|i: int| 0 <= i < blocks.len() implies #[trigger] longer[i] == blocks[i] by {}
    assert(longer[blocks.len() as int] == b);
    if chain_is_linked(longer) {
        assert forall|i: int| 1 <= i < blocks.len() implies #[trigger] blocks[i].previous_hash@
            == blocks[i - 1].hash@ by {
            assert(longer[i].previous_hash@ == longer[i - 1].hash@);
        }
    }
    if chain_is_consistent(longer) {
        assert forall|i: int| 0 <= i < blocks.len() implies #[trigger] blocks[i].is_consistent() by {
            assert(longer[i].is_consistent());
        }
    }
    if chain_is_sealed(longer, difficulty) {
        assert forall|i: int| 1 <= i < blocks.len() implies has_leading_zeros(
            #[trigger] blocks[i].hash@,
            difficulty,
        ) by {
            assert(has_leading_zeros(longer[i].hash@, difficulty));
        }
    }
    if chain_is_numbered(longer) {
        assert forall|i: int| 0 <= i < blocks.len() implies #[trigger] blocks[i].index == i by {
            assert(longer[i].index == i);
        }
    }
    if chain_is_numbered(blocks) {
        assert(blocks[blocks.len() - 1].index == blocks.len() - 1);
    }
}

/// Replacing any block but the last of a valid chain by another block makes the
/// chain invalid. The one exception is a block that keeps the stored digest while
/// its fields have the same digest as before: a collision of the hash function.
pub proof fn tampering_is_detected(blocks: Seq<Block>, i: int, b: Block)
    requires
        chain_is_valid(blocks),
        0 <= i < blocks.len() - 1,
        b.hash@ == blocks[i].hash@ ==> b.digest() != blocks[i].digest(),
    ensures
        !chain_is_valid(blocks.update(i, b)),
{
    let changed = blocks.update(i, b);
    assert(blocks[i].is_consistent());
    if b.hash@ == blocks[i].hash@ {
        assert(!changed[i].is_consistent());
    } else {
        assert(blocks[i + 1].previous_hash@ == blocks[i].hash@);
        assert(changed[i + 1] == blocks[i + 1]);
        assert(changed[i + 1].previous_hash@ != changed[i].hash@);
    }
}

/// Validation reads the blocks alone: two chains with the same blocks get the
/// same answer, so validating again without a change gives the same result.
pub proof fn validation_is_idempotent(a: &Blockchain, b: &Blockchain)
    requires
        a.chain@ == b.chain@,
    ensures
        chain_is_valid(a.chain@) == chain_is_valid(b.chain@),
{
}

#[derive(Debug)]
pub struct Blockchain {
    pub chain: Vec<Block>,
    pub difficulty: usize,
}

impl Blockchain {
    /// `b` has the fields that `self` gives the next block with payload `data`
    /// and the given timestamp: the index after the tail's, and the tail's digest.
    pub open spec fn is_next_block(&self, b: Block, timestamp: Seq<char>, data: Seq<char>) -> bool {
        let tail = self.chain@.last();
        &&& b.index == tail.index + 1
        &&& b.timestamp@ == timestamp
        &&& b.data@ == data
        &&& b.previous_hash@ == tail.hash@
    }

    /// `self` is `prev` with `b` appended, and `b` is the block sealed for it: its
    /// digest is right, begins with `difficulty` zeros, and no smaller nonce does.
    pub open spec fn appended_sealed(&self, prev: &Blockchain, b: Block) -> bool {
        let d = prev.difficulty as nat;
        &&& self.difficulty == prev.difficulty
        &&& self.chain@ == prev.chain@.push(b)
        &&& b.is_consistent()
        &&& has_leading_zeros(b.hash@, d)
        &&& forall|n: u64|
            n < b.nonce ==> !has_leading_zeros(#[trigger] b.digest_with_nonce(n), d)
    }

    /// Linkage, validity, the work factor and the numbering hold of `self`
    /// exactly when they held of `prev`.
    pub open spec fn keeps_invariants_of(&self, prev: &Blockchain) -> bool {
        let d = prev.difficulty as nat;
        &&& chain_is_linked(self.chain@) == chain_is_linked(prev.chain@)
        &&& chain_is_valid(self.chain@) == chain_is_valid(prev.chain@)
        &&& chain_is_sealed(self.chain@, d) == chain_is_sealed(prev.chain@, d)
        &&& chain_is_numbered(self.chain@) == chain_is_numbered(prev.chain@)
    }

    fn create_genesis_block() -> (b: Block)
        ensures
            is_genesis(b),
    {
        Block::new(0, "Genesis Block".to_string(), "0".to_string())
    }

    /// A chain that holds the genesis block alone.
    pub fn new(difficulty: usize) -> (c: Self)
        ensures
            c.difficulty == difficulty,
            c.chain@.len() == 1,
            is_genesis(c.chain@[0]),
            chain_is_valid(c.chain@),
            chain_is_sealed(c.chain@, difficulty as nat),
            chain_is_numbered(c.chain@),
    {
        let mut chain: Vec<Block> = Vec::new();
        chain.push(Blockchain::create_genesis_block());
        Blockchain { chain, difficulty }
    }

    /// Builds the block after the tail with payload `data` and the given
    /// timestamp, seals it under the chain's difficulty, and appends it. On
    /// failure the chain is left as it was.
    pub fn add_block_at(&mut self, data: String, timestamp: String) -> (r: Result<(), SealError>)
        requires
            old(self).chain@.len() > 0,
            old(self).chain@.last().index < u64::MAX,
        ensures
            (r == Err::<(), SealError>(SealError::DifficultyUnreachable)) <==> old(self).difficulty
                > DIGEST_HEX_LEN,
            r is Ok <==> (old(self).difficulty <= DIGEST_HEX_LEN && sealable(
                (old(self).chain@.last().index + 1) as u64,
                timestamp@,
                data@,
                old(self).chain@.last().hash@,
                old(self).difficulty as nat,
            )),
            r is Err ==> *final(self) == *old(self),
            r is Ok ==> {
                let b = final(self).chain@.last();
                &&& final(self).appended_sealed(old(self), b)
                &&& old(self).is_next_block(b, timestamp@, data@)
            },
            r is Ok ==> final(self).keeps_invariants_of(old(self)),
    {
        let last = self.chain.len() - 1;
        let index = self.chain[last].index + 1;
        let previous_hash = self.chain[last].hash.clone();
        let mut block = Block::with_timestamp(index, timestamp, data, previous_hash);
        let ghost fresh = block;
        let sealed = block.mine_block(self.difficulty);
        match sealed {
            Ok(()) => {
                assert forall|n: u64| n < block.nonce implies !has_leading_zeros(
                    #[trigger] block.digest_with_nonce(n),
                    self.difficulty as nat,
                ) by {
                    assert(block.digest_with_nonce(n) == fresh.digest_with_nonce(n));
                }
                assert(has_leading_zeros(fresh.digest_with_nonce(block.nonce), self.difficulty as nat));
                proof {
                    append_keeps_invariants(self.chain@, block, self.difficulty as nat);
                }
                self.chain.push(block);
                assert(self.chain@.last() == block);
                Ok(())
            },
            Err(e) => {
                proof {
                    if e == SealError::BudgetExhausted {
                        if sealable(index, fresh.timestamp@, fresh.data@, fresh.previous_hash@, self.difficulty as nat) {
                            let n = choose|n: u64|
                                #[trigger] has_leading_zeros(
                                    digest_of(index, fresh.timestamp@, fresh.data@, fresh.previous_hash@, n),
                                    self.difficulty as nat,
                                );
                            assert(has_leading_zeros(fresh.digest_with_nonce(n), self.difficulty as nat));
                        }
                    }
                }
                Err(e)
            },
        }
    }

    /// Appends a block with payload `data`, stamped with the current time and
    /// sealed under the chain's difficulty. On failure the chain is left as it was.
    pub fn add_block(&mut self, data: String) -> (r: Result<(), SealError>)
        requires
            old(self).chain@.len() > 0,
            old(self).chain@.last().index < u64::MAX,
        ensures
            (r == Err::<(), SealError>(SealError::DifficultyUnreachable)) <==> old(self).difficulty
                > DIGEST_HEX_LEN,
            r is Err ==> *final(self) == *old(self),
            r == Err::<(), SealError>(SealError::BudgetExhausted) ==> exists|timestamp: Seq<char>|
                !#[trigger] sealable(
                    (old(self).chain@.last().index + 1) as u64,
                    timestamp,
                    data@,
                    old(self).chain@.last().hash@,
                    old(self).difficulty as nat,
                ),
            r is Ok ==> {
                let b = final(self).chain@.last();
                &&& final(self).appended_sealed(old(self), b)
                &&& old(self).is_next_block(b, b.timestamp@, data@)
            },
            r is Ok ==> final(self).keeps_invariants_of(old(self)),
    {
        let timestamp = crate::block::now_rfc3339();
        let ghost stamp = timestamp@;
        let r = self.add_block_at(data, timestamp);
        assert(r == Err::<(), SealError>(SealError::BudgetExhausted) ==> !sealable(
            (old(self).chain@.last().index + 1) as u64,
            stamp,
            data@,
            old(self).chain@.last().hash@,
            old(self).difficulty as nat,
        ));
        r
    }

    /// Whether every block's digest is the digest of its fields and every block
    /// after the first holds the digest of its predecessor.
    pub fn is_valid(&self) -> (r: bool)
        ensures
            r == chain_is_valid(self.chain@),
    {
        let mut i: usize = 0;
        while i < self.chain.len()
            invariant
                0 <= i <= self.chain@.len(),
                forall|j: int| 0 <= j < i ==> #[trigger] self.chain@[j].is_consistent(),
                forall|j: int| 1 <= j < i ==> #[trigger] self.chain@[j].previous_hash@ == self.chain@[j - 1].hash@,
            decreases self.chain@.len() - i,
        {
            let current = &self.chain[i];
            if !(current.hash == current.calculate_hash()) {
                assert(!self.chain@[i as int].is_consistent());
                return false;
            }
            if i > 0 && !(current.previous_hash == self.chain[i - 1].hash) {
                assert(self.chain@[i as int].previous_hash@ != self.chain@[i - 1].hash@);
                return false;
            }
            i = i + 1;
        }
        true
    }
}

} // verus!
