//! The archiving cursor that drives the agent's indexing loop.
//!
//! The loop repeatedly compares the latest archived block with the chain
//! head; when the head is past the EIP-4844 activation block and ahead of
//! the cursor, the next block is fetched and stored. Whatever the outcome of
//! that attempt (stored, storage failed, fetching failed), the cursor moves
//! on to it, so a block is attempted once.
use vstd::prelude::*;
use crate::constants::FIRST_ETH_L1_EIP4844_BLOCK;

verus! {

/// What happened to an attempted block.
#[derive(Debug, Clone, Copy, PartialEq, Eq, Structural)]
pub enum ArchiveOutcome {
    /// Its blobs were fetched and stored.
    Stored,
    /// Its blobs were fetched but storing them failed.
    StoreFailed,
    /// Its blobs could not be fetched.
    FetchFailed,
}

/// The block to attempt next, given the latest archived block and the chain
/// head: the one after the cursor, when the head is past the activation
/// block and ahead of the cursor; none otherwise.
pub open spec fn next_block_spec(latest_archived: nat, chain_head: nat) -> Option<nat> {
    if chain_head > FIRST_ETH_L1_EIP4844_BLOCK && latest_archived < chain_head {
        Some(latest_archived + 1)
    } else {
        None
    }
}

/// The position of the indexing loop: the latest block it has attempted.
#[derive(Debug)]
pub struct ArchiveCursor {
    latest_archived: u64,
}

impl ArchiveCursor {
    /// The latest attempted block number.
    pub closed spec fn latest(&self) -> nat {
        self.latest_archived as nat
    }

    /// A cursor that starts after `latest_archived`.
    pub fn new(latest_archived: u64) -> (c: Self)
        ensures
            c.latest() == latest_archived,
    {
        ArchiveCursor { latest_archived }
    }

    /// The latest attempted block number.
    pub fn latest_archived(&self) -> (n: u64)
        ensures
            n == self.latest(),
    {
        self.latest_archived
    }

    /// The block to attempt next against the chain head `chain_head`.
    pub fn next_block(&self, chain_head: u64) -> (t: Option<u64>)
        ensures
            t matches Some(b) ==> next_block_spec(self.latest(), chain_head as nat) == Some(b as nat),
            t is None ==> next_block_spec(self.latest(), chain_head as nat) is None,
    {
        if chain_head > FIRST_ETH_L1_EIP4844_BLOCK && self.latest_archived < chain_head {
            Some(self.latest_archived + 1)
        } else {
            None
        }
    }

    /// Records the outcome of the attempt at `target`, the block that
    /// `next_block` named; the cursor moves to it whatever the outcome.
    pub fn record(&mut self, target: u64, outcome: ArchiveOutcome)
        requires
            target == old(self).latest() + 1,
        ensures
            final(self).latest() == target,
    {
        match outcome {
            ArchiveOutcome::Stored => {
                self.latest_archived = target;
            },
            ArchiveOutcome::StoreFailed => {
                self.latest_archived = target;
            },
            ArchiveOutcome::FetchFailed => {
                self.latest_archived = target;
            },
        }
    }
}

/// The blocks that the loop attempts, in order, from cursor `latest` while
/// the chain head stays at `chain_head`.
pub open spec fn attempted_blocks(latest: nat, chain_head: nat) -> Seq<nat>
    decreases chain_head - latest,
{
    match next_block_spec(latest, chain_head) {
        Some(t) => seq![t] + attempted_blocks(t, chain_head),
        None => Seq::empty(),
    }
}

/// An attempted block lies strictly after the cursor and at most at the
/// chain head: the cursor never passes the head.
pub proof fn lemma_next_block_within_head(latest: nat, chain_head: nat)
    ensures
        next_block_spec(latest, chain_head) matches Some(t) ==> latest < t <= chain_head,
{
}

/// While the head stays at `chain_head` past the activation block, the loop
/// attempts every block after the cursor up to the head, each once, in
/// increasing order; with the head at or before the activation block it
/// attempts nothing.
pub proof fn lemma_attempts_every_block_once(latest: nat, chain_head: nat)
    ensures
        chain_head > FIRST_ETH_L1_EIP4844_BLOCK && latest <= chain_head ==> attempted_blocks(
            latest,
            chain_head,
        ) == Seq::new((chain_head - latest) as nat, |i: int| (latest + 1 + i) as nat),
        chain_head <= FIRST_ETH_L1_EIP4844_BLOCK ==> attempted_blocks(latest, chain_head)
            == Seq::<nat>::empty(),
    decreases chain_head - latest,
{
    if chain_head > FIRST_ETH_L1_EIP4844_BLOCK && latest < chain_head {
        lemma_attempts_every_block_once(latest + 1, chain_head);
        assert(attempted_blocks(latest, chain_head) =~= Seq::new(
            (chain_head - latest) as nat,
            |i: int| (latest + 1 + i) as nat,
        ));
    } else if chain_head > FIRST_ETH_L1_EIP4844_BLOCK && latest == chain_head {
        assert(attempted_blocks(latest, chain_head) =~= Seq::new(
            (chain_head - latest) as nat,
            |i: int| (latest + 1 + i) as nat,
        ));
    }
}

} // verus!
