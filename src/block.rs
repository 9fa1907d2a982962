//! A block: identity fields, a payload, the digest of its predecessor, and a
//! digest of its own fields, sealed by a search for a nonce.

use crate::digest::{compute_digest, digest_of, has_leading_zeros, leading_zeros, DIGEST_HEX_LEN};
use vstd::prelude::*;

verus! {

/// Relies on chrono's `Utc::now` and `DateTime::to_rfc3339`: the current time
/// written in RFC 3339. Nothing is stated of it: it depends on the clock.
#[verifier::external_body]
pub(crate) fn now_rfc3339() -> String {
    chrono::Utc::now().to_rfc3339()
}

/// Why sealing a block failed.
#[derive(Debug, Clone, Copy, PartialEq, Eq, Structural)]
pub enum SealError {
    /// More leading zeros were asked for than a digest has characters.
    DifficultyUnreachable,
    /// No nonce in the allowed range gives a digest with enough leading zeros.
    BudgetExhausted,
}

#[derive(Debug, Clone)]
pub struct Block {
    pub index: u64,
    pub timestamp: String,
    pub data: String,
    pub previous_hash: String,
    pub nonce: u64,
    pub hash: String,
}

/// The digest is a function of the fields alone: blocks that agree on every field
/// but the stored digest have the same digest, so computing it twice gives the
/// same result.
pub proof fn digest_is_deterministic(a: &Block, b: &Block)
    requires
        a.same_contents(b),
        a.nonce == b.nonce,
    ensures
        a.digest() == b.digest(),
{
}

impl Block {
    /// The digest of this block's fields, with `nonce` in place of its own nonce.
    pub open spec fn digest_with_nonce(&self, nonce: u64) -> Seq<char> {
        digest_of(self.index, self.timestamp@, self.data@, self.previous_hash@, nonce)
    }

    /// The digest of this block's fields (all but `hash`).
    pub open spec fn digest(&self) -> Seq<char> {
        self.digest_with_nonce(self.nonce)
    }

    /// The stored digest is the digest of the block's fields.
    pub open spec fn is_consistent(&self) -> bool {
        self.hash@ == self.digest()
    }

    /// The fields that sealing leaves alone are those of `other`.
    pub open spec fn same_contents(&self, other: &Block) -> bool {
        &&& self.index == other.index
        &&& self.timestamp@ == other.timestamp@
        &&& self.data@ == other.data@
        &&& self.previous_hash@ == other.previous_hash@
    }

    /// Some nonce in `lo..=hi` gives this block a digest that begins with
    /// `difficulty` zeros.
    pub open spec fn can_seal_within(&self, difficulty: nat, lo: u64, hi: u64) -> bool {
        exists|n: u64|
            lo <= n <= hi && #[trigger] has_leading_zeros(self.digest_with_nonce(n), difficulty)
    }

    /// A block with the given fields and timestamp, nonce 0 and a consistent digest.
    pub fn with_timestamp(index: u64, timestamp: String, data: String, previous_hash: String) -> (b:
        Block)
        ensures
            b.index == index,
            b.timestamp@ == timestamp@,
            b.data@ == data@,
            b.previous_hash@ == previous_hash@,
            b.nonce == 0,
            b.is_consistent(),
    {
        let hash = compute_digest(index, timestamp.as_str(), data.as_str(), previous_hash.as_str(), 0);
        Block { index, timestamp, data, previous_hash, nonce: 0, hash }
    }

    /// A block stamped with the current time, nonce 0 and a consistent digest.
    pub fn new(index: u64, data: String, previous_hash: String) -> (b: Block)
        ensures
            b.index == index,
            b.data@ == data@,
            b.previous_hash@ == previous_hash@,
            b.nonce == 0,
            b.is_consistent(),
    {
        Block::with_timestamp(index, now_rfc3339(), data, previous_hash)
    }

    /// The digest of this block's fields.
    pub fn calculate_hash(&self) -> (r: String)
        ensures
            r@ == self.digest(),
            r@.len() == DIGEST_HEX_LEN,
    {
        compute_digest(
            self.index,
            self.timestamp.as_str(),
            self.data.as_str(),
            self.previous_hash.as_str(),
            self.nonce,
        )
    }

    /// Tries the nonces from the block's own up to `max_nonce`, in order, and
    /// keeps the first whose digest begins with `difficulty` zeros. On failure the
    /// block is left as it was.
    pub fn seal_within(&mut self, difficulty: usize, max_nonce: u64) -> (r: Result<(), SealError>)
        ensures
            (r == Err::<(), SealError>(SealError::DifficultyUnreachable)) <==> difficulty
                > DIGEST_HEX_LEN,
            r is Ok <==> (difficulty <= DIGEST_HEX_LEN && old(self).can_seal_within(
                difficulty as nat,
                old(self).nonce,
                max_nonce,
            )),
            r is Err ==> *final(self) == *old(self),
            r is Ok ==> {
                &&& final(self).same_contents(old(self))
                &&& old(self).nonce <= final(self).nonce <= max_nonce
                &&& final(self).is_consistent()
                &&& has_leading_zeros(final(self).hash@, difficulty as nat)
                &&& forall|n: u64|
                    old(self).nonce <= n < final(self).nonce ==> !has_leading_zeros(
                        #[trigger] old(self).digest_with_nonce(n),
                        difficulty as nat,
                    )
            },
    {
        if difficulty > DIGEST_HEX_LEN {
            return Err(SealError::DifficultyUnreachable);
        }
        if self.nonce > max_nonce {
            return Err(SealError::BudgetExhausted);
        }
        let mut n: u64 = self.nonce;
        loop
            invariant
                difficulty <= DIGEST_HEX_LEN,
                *self == *old(self),
                old(self).nonce <= n <= max_nonce,
                forall|m: u64|
                    old(self).nonce <= m < n ==> !has_leading_zeros(
                        #[trigger] old(self).digest_with_nonce(m),
                        difficulty as nat,
                    ),
            decreases max_nonce - n,
        {
            let h = compute_digest(
                self.index,
                self.timestamp.as_str(),
                self.data.as_str(),
                self.previous_hash.as_str(),
                n,
            );
            if leading_zeros(h.as_str(), difficulty) {
                assert(has_leading_zeros(old(self).digest_with_nonce(n), difficulty as nat));
                self.nonce = n;
                self.hash = h;
                return Ok(());
            }
            if n == max_nonce {
                assert(!old(self).can_seal_within(difficulty as nat, old(self).nonce, max_nonce));
                return Err(SealError::BudgetExhausted);
            }
            n = n + 1;
        }
    }

    /// Seals the block: tries every nonce from its own upward and keeps the first
    /// whose digest begins with `difficulty` zeros.
    pub fn mine_block(&mut self, difficulty: usize) -> (r: Result<(), SealError>)
        ensures
            (r == Err::<(), SealError>(SealError::DifficultyUnreachable)) <==> difficulty
                > DIGEST_HEX_LEN,
            r is Ok <==> (difficulty <= DIGEST_HEX_LEN && old(self).can_seal_within(
                difficulty as nat,
                old(self).nonce,
                u64::MAX,
            )),
            r is Err ==> *final(self) == *old(self),
            r is Ok ==> {
                &&& final(self).same_contents(old(self))
                &&& old(self).nonce <= final(self).nonce
                &&& final(self).is_consistent()
                &&& has_leading_zeros(final(self).hash@, difficulty as nat)
                &&& forall|n: u64|
                    old(self).nonce <= n < final(self).nonce ==> !has_leading_zeros(
                        #[trigger] old(self).digest_with_nonce(n),
                        difficulty as nat,
                    )
            },
    {
        self.seal_within(difficulty, u64::MAX)
    }
}

} // verus!
