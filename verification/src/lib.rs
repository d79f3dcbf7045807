//! Parent-chain finality provider for a child subnet.
//!
//! A child subnet observes a parent blockchain one height at a time; each
//! height is either *filled* (a block hash plus its top-down side effects) or
//! a *null round*.  This crate keeps those observations in a sequential,
//! gap-free cache, selects parent heights that are safe to propose as a
//! finality commitment, verifies proposals made by other validators, and
//! commits them, pruning the cache as it goes.

use vstd::prelude::*;
use std::time::Duration;

pub mod cache;
pub mod event;
pub mod finality;
pub mod options;
pub mod payload;
pub mod sealed;

verus! {

/// A height on the parent chain.
pub type BlockHeight = u64;

/// The hash of a parent block, kept as an opaque byte sequence.
pub type BlockHash = Vec<u8>;

/// Used when `max_proposal_range` is not configured.
pub const DEFAULT_MAX_PROPOSAL_RANGE: u64 = 100;

/// Used when `proposal_delay` is not configured.
pub const DEFAULT_PROPOSAL_DELAY: u64 = 2;

/// Relies on std's Duration::from_millis to build the syncer durations a
/// `Config` carries; the core never reads them, so nothing is assumed about
/// the value.
pub assume_specification[ Duration::from_millis ](millis: u64) -> Duration;

/// The recognized configuration options.  Only `max_proposal_range`,
/// `max_cache_blocks` and `proposal_delay` drive the core; the rest belongs
/// to the external syncer that feeds observations in.
pub struct Config {
    /// Parent-side safety depth, used by the external syncer.
    pub chain_head_delay: BlockHeight,
    /// How often the external syncer polls the parent; not used by the core.
    pub polling_interval: Duration,
    /// Base of the syncer's retry back-off; not used by the core.
    pub exponential_back_off: Duration,
    /// Cap on the syncer's retries; not used by the core.
    pub exponential_retry_limit: usize,
    /// Maximum distance from the last committed height to a proposable
    /// height, inclusive of one.
    pub max_proposal_range: Option<BlockHeight>,
    /// Upper bound on the number of cached blocks; the ingestor refuses new
    /// observations once the cache is full.
    pub max_cache_blocks: Option<BlockHeight>,
    /// Extra safety offset below the newest cached non-null height.
    pub proposal_delay: Option<BlockHeight>,
}

impl Config {
    /// The proposal window `W`, falling back to the default.
    pub open spec fn spec_max_proposal_range(&self) -> u64 {
        match self.max_proposal_range {
            Option::Some(w) => w,
            Option::None => DEFAULT_MAX_PROPOSAL_RANGE,
        }
    }

    /// The proposal delay `D`, falling back to the default.
    pub open spec fn spec_proposal_delay(&self) -> u64 {
        match self.proposal_delay {
            Option::Some(d) => d,
            Option::None => DEFAULT_PROPOSAL_DELAY,
        }
    }

    pub fn max_proposal_range(&self) -> (r: u64)
        ensures
            r == self.spec_max_proposal_range(),
    {
        match self.max_proposal_range {
            Some(w) => w,
            None => DEFAULT_MAX_PROPOSAL_RANGE,
        }
    }

    pub fn proposal_delay(&self) -> (r: u64)
        ensures
            r == self.spec_proposal_delay(),
    {
        match self.proposal_delay {
            Some(d) => d,
            None => DEFAULT_PROPOSAL_DELAY,
        }
    }
}

/// The errors surfaced to the syncer by the ingestor.
#[derive(Debug, PartialEq, Eq, Structural)]
pub enum Error {
    /// A new parent view does not extend the cache by exactly one height, or
    /// its embedded side effects are not sequential.
    NonSequentialParentViewInsert,
    /// The cache already holds `max_cache_blocks` entries.
    CacheFull,
}

/// A committed view of the parent chain: the pair of a parent height and the
/// hash of the block at that height.
#[derive(Debug)]
pub struct IPCParentFinality {
    pub height: BlockHeight,
    pub block_hash: BlockHash,
}

impl IPCParentFinality {
    pub fn new(height: BlockHeight, block_hash: BlockHash) -> (r: Self)
        ensures
            r.height == height,
            r.block_hash == block_hash,
    {
        IPCParentFinality { height, block_hash }
    }
}

impl Clone for IPCParentFinality {
    fn clone(&self) -> (r: Self)
        ensures
            finality_eq(r, *self),
    {
        IPCParentFinality { height: self.height, block_hash: clone_bytes(&self.block_hash) }
    }
}

impl PartialEq for IPCParentFinality {
    fn eq(&self, other: &Self) -> (r: bool)
        ensures
            r == finality_eq(*self, *other),
    {
        self.height == other.height && bytes_eq(&self.block_hash, &other.block_hash)
    }
}

impl vstd::std_specs::cmp::PartialEqSpecImpl for IPCParentFinality {
    open spec fn obeys_eq_spec() -> bool {
        true
    }

    open spec fn eq_spec(&self, other: &Self) -> bool {
        finality_eq(*self, *other)
    }
}

impl Eq for IPCParentFinality {}

/// Spec-level equality of two finalities: same height and same hash bytes.
pub open spec fn finality_eq(a: IPCParentFinality, b: IPCParentFinality) -> bool {
    a.height == b.height && a.block_hash@ == b.block_hash@
}

/// Spec-level equality of two optional finalities.
pub open spec fn opt_finality_eq(a: Option<IPCParentFinality>, b: Option<IPCParentFinality>) -> bool {
    match (a, b) {
        (Option::None, Option::None) => true,
        (Option::Some(x), Option::Some(y)) => finality_eq(x, y),
        _ => false,
    }
}

/// Copies a byte vector element by element, so that the copy provably holds
/// the same bytes.
pub fn clone_bytes(v: &Vec<u8>) -> (r: Vec<u8>)
    ensures
        r@ == v@,
{
    let mut r: Vec<u8> = Vec::new();
    let mut i: usize = 0;
    while i < v.len()
        invariant
            i <= v.len(),
            r@ == v@.subrange(0, i as int),
        decreases v.len() - i,
    {
        r.push(v[i]);
        proof {
            assert(r@ =~= v@.subrange(0, i + 1 as int));
        }
        i += 1;
    }
    proof {
        assert(r@ =~= v@);
    }
    r
}

/// Compares two byte vectors for equal contents.
pub fn bytes_eq(a: &Vec<u8>, b: &Vec<u8>) -> (r: bool)
    ensures
        r == (a@ == b@),
{
    if a.len() != b.len() {
        proof {
            assert(a@ !~= b@);
        }
        return false;
    }
    let mut i: usize = 0;
    while i < a.len()
        invariant
            i <= a.len(),
            a@.len() == b@.len(),
            forall|j: int| 0 <= j < i ==> a@[j] == b@[j],
        decreases a.len() - i,
    {
        if a[i] != b[i] {
            proof {
                assert(a@ !~= b@);
            }
            return false;
        }
        i += 1;
    }
    proof {
        assert(a@ =~= b@);
    }
    true
}

} // verus!
