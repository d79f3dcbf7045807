//! The finality provider itself: it ingests parent observations (including
//! null rounds), picks the next proposable height under the window/delay
//! rule, verifies incoming proposals, and commits finalities while pruning
//! the cache.

use vstd::prelude::*;
use crate::cache::SequentialKeyCache;
use crate::event::{ParentFinalityCommitted, hex_encode, hex_of};
use crate::payload::{
    CrossMessage, ParentViewPayload, ValidatorChangeRequest, changes_eq, changes_sequential,
    clone_changes, clone_msgs, extend_changes, extend_msgs, lemma_changes_eq_concat,
    lemma_changes_eq_trans, lemma_msgs_eq_concat, lemma_msgs_eq_trans, msgs_eq, msgs_sequential,
    slot_eq, slot_wf,
};
use crate::sealed::{SealedTopdownProposal, commitment_of, lemma_commitment_deterministic};
use crate::{
    BlockHash, BlockHeight, Config, Error, IPCParentFinality, bytes_eq, clone_bytes, finality_eq,
    opt_finality_eq,
};

verus! {

/// Finality provider that can handle null blocks.
pub struct FinalityWithNull {
    pub config: Config,
    genesis_epoch: BlockHeight,
    /// Cached data that syncs with the parent chain proactively; a slot holds
    /// the payload of a filled block, or nothing for a null round.
    cached_data: SequentialKeyCache<Option<ParentViewPayload>>,
    /// The committed parent finality, the starting point for populating the
    /// cache.
    last_committed_finality: Option<IPCParentFinality>,
}

impl FinalityWithNull {
    /// The observation cache.
    pub closed spec fn cache(&self) -> SequentialKeyCache<Option<ParentViewPayload>> {
        self.cached_data
    }

    /// The last committed finality.
    pub closed spec fn committed(&self) -> Option<IPCParentFinality> {
        self.last_committed_finality
    }

    pub closed spec fn spec_genesis_epoch(&self) -> BlockHeight {
        self.genesis_epoch
    }

    /// The configuration the provider runs with.
    pub closed spec fn spec_config(&self) -> Config {
        self.config
    }

    /// The cache slot at height `h`; meaningful only when the cache holds
    /// that key.
    pub open spec fn slot_at(&self, h: int) -> Option<ParentViewPayload> {
        self.cache().spec_value(h)
    }

    /// Height `h` is cached and holds a filled block.
    pub open spec fn filled_at(&self, h: int) -> bool {
        self.cache().spec_has_key(h) && self.slot_at(h) is Some
    }

    /// The payload at a filled height.
    pub open spec fn payload_at(&self, h: int) -> ParentViewPayload {
        self.slot_at(h).unwrap()
    }

    /// Every cached key fits in the configured bound and every filled slot
    /// carries sequential side effects.
    pub open spec fn wf(&self) -> bool {
        &&& self.cache().wf()
        &&& match self.spec_config().max_cache_blocks {
            Option::Some(m) => self.cache().spec_len() <= m,
            Option::None => true,
        }
        &&& forall|i: int|
            0 <= i < self.cache().entries().len() ==> slot_wf(#[trigger] self.cache().entries()[i])
    }

    /// Creates a provider with an empty cache, seeded with the committed
    /// finality read back from durable storage, if one exists.
    pub fn new(
        config: Config,
        genesis_epoch: BlockHeight,
        committed_finality: Option<IPCParentFinality>,
    ) -> (r: Self)
        ensures
            r.wf(),
            r.spec_config() == config,
            r.spec_genesis_epoch() == genesis_epoch,
            r.cache().spec_is_empty(),
            r.committed() == committed_finality,
    {
        FinalityWithNull {
            config,
            genesis_epoch,
            cached_data: SequentialKeyCache::sequential(),
            last_committed_finality: committed_finality,
        }
    }

    pub fn genesis_epoch(&self) -> (r: BlockHeight)
        ensures
            r == self.spec_genesis_epoch(),
    {
        self.genesis_epoch
    }

    /// A copy of the last committed finality.
    pub fn last_committed_finality(&self) -> (r: Option<IPCParentFinality>)
        ensures
            opt_finality_eq(r, self.committed()),
    {
        match &self.last_committed_finality {
            Some(f) => Some(f.clone()),
            None => None,
        }
    }

    /// Clears the cache and sets the committed finality to the provided
    /// value; used after a reorg or a restore.
    pub fn reset(&mut self, finality: IPCParentFinality)
        ensures
            final(self).wf(),
            final(self).cache().spec_is_empty(),
            final(self).committed() == Some(finality),
            final(self).spec_config() == old(self).spec_config(),
            final(self).spec_genesis_epoch() == old(self).spec_genesis_epoch(),
    {
        self.cached_data = SequentialKeyCache::sequential();
        self.last_committed_finality = Some(finality);
    }

    /// The number of blocks cached.
    pub fn cached_blocks(&self) -> (r: BlockHeight)
        ensures
            r == self.cache().spec_len(),
    {
        self.cached_data.size() as BlockHeight
    }

    /// The greatest height in the cache, if any.
    pub fn latest_height_in_cache(&self) -> (r: Option<BlockHeight>)
        requires
            self.wf(),
        ensures
            match r {
                Option::Some(h) => !self.cache().spec_is_empty() && h == self.cache().upper_key(),
                Option::None => self.cache().spec_is_empty(),
            },
    {
        self.cached_data.upper_bound()
    }

    /// The latest height tracked by the provider: the cache's upper bound,
    /// else the committed height.
    pub open spec fn spec_latest_height(&self) -> Option<int> {
        if !self.cache().spec_is_empty() {
            Option::Some(self.cache().upper_key())
        } else {
            match self.committed() {
                Option::Some(f) => Option::Some(f.height as int),
                Option::None => Option::None,
            }
        }
    }

    /// The latest height tracked in the provider, from both the cache and
    /// the last committed finality.
    pub fn latest_height(&self) -> (r: Option<BlockHeight>)
        requires
            self.wf(),
        ensures
            match r {
                Option::Some(h) => self.spec_latest_height() == Option::Some(h as int),
                Option::None => self.spec_latest_height() is None,
            },
    {
        match self.latest_height_in_cache() {
            Some(h) => Some(h),
            None => match &self.last_committed_finality {
                Some(f) => Some(f.height),
                None => None,
            },
        }
    }

    /// The hash the provider knows for height `h`: the committed hash when
    /// `h` is the committed height, else the cached hash of a filled block.
    pub open spec fn spec_block_hash_at(&self, h: int) -> Option<Seq<u8>> {
        match self.committed() {
            Option::Some(f) => if f.height == h {
                Option::Some(f.block_hash@)
            } else {
                self.spec_cache_hash_at(h)
            },
            Option::None => self.spec_cache_hash_at(h),
        }
    }

    /// The cached hash of a filled block at height `h`.
    pub open spec fn spec_cache_hash_at(&self, h: int) -> Option<Seq<u8>> {
        if self.filled_at(h) {
            Option::Some(self.payload_at(h).block_hash@)
        } else {
            Option::None
        }
    }

    /// The block hash at `height`, from the committed finality or the cache.
    pub fn block_hash_at_height(&self, height: BlockHeight) -> (r: Option<BlockHash>)
        requires
            self.wf(),
        ensures
            match r {
                Option::Some(bh) => self.spec_block_hash_at(height as int) == Option::Some(bh@),
                Option::None => self.spec_block_hash_at(height as int) is None,
            },
    {
        if let Some(f) = &self.last_committed_finality {
            if f.height == height {
                return Some(clone_bytes(&f.block_hash));
            }
        }
        match self.cached_data.get_value(height) {
            Some(slot) => match slot {
                Some(p) => Some(clone_bytes(&p.block_hash)),
                None => None,
            },
            None => None,
        }
    }

    /// The validator changes at height `h`: the embedded sequence of a
    /// filled block, nothing for a null round, unknown outside the cache.
    pub open spec fn spec_validator_changes(&self, h: int) -> Option<Seq<ValidatorChangeRequest>> {
        if !self.cache().spec_has_key(h) {
            Option::None
        } else {
            match self.slot_at(h) {
                Option::Some(p) => Option::Some(p.validator_changes@),
                Option::None => Option::Some(Seq::empty()),
            }
        }
    }

    /// The top-down messages at height `h`, in the same three-way shape.
    pub open spec fn spec_top_down_msgs(&self, h: int) -> Option<Seq<CrossMessage>> {
        if !self.cache().spec_has_key(h) {
            Option::None
        } else {
            match self.slot_at(h) {
                Option::Some(p) => Option::Some(p.top_down_msgs@),
                Option::None => Option::Some(Seq::empty()),
            }
        }
    }

    /// The validator changes observed at `height`: the exact sequence fed in
    /// for a filled block, an empty one for a null round, nothing for a
    /// height outside the cache.
    pub fn validator_changes(&self, height: BlockHeight) -> (r: Option<
        Vec<ValidatorChangeRequest>,
    >)
        requires
            self.wf(),
        ensures
            r is Some <==> self.spec_validator_changes(height as int) is Some,
            r matches Some(v) ==> changes_eq(
                v@,
                self.spec_validator_changes(height as int).unwrap(),
            ),
    {
        match self.cached_data.get_value(height) {
            Some(slot) => match slot {
                Some(p) => Some(clone_changes(&p.validator_changes)),
                None => Some(Vec::new()),
            },
            None => None,
        }
    }

    /// The top-down messages observed at `height`, in the same three-way
    /// shape as `validator_changes`.
    pub fn top_down_msgs(&self, height: BlockHeight) -> (r: Option<Vec<CrossMessage>>)
        requires
            self.wf(),
        ensures
            r is Some <==> self.spec_top_down_msgs(height as int) is Some,
            r matches Some(v) ==> msgs_eq(v@, self.spec_top_down_msgs(height as int).unwrap()),
    {
        match self.cached_data.get_value(height) {
            Some(slot) => match slot {
                Some(p) => Some(clone_msgs(&p.top_down_msgs)),
                None => Some(Vec::new()),
            },
            None => None,
        }
    }

    /// Whether `maybe_payload` may enter the cache at all: a null round
    /// always may; a filled payload only with sequential side effects.
    pub open spec fn spec_payload_ok(maybe_payload: Option<ParentViewPayload>) -> bool {
        slot_wf(maybe_payload)
    }

    /// Whether `height` continues the cached range.
    pub open spec fn spec_height_ok(&self, height: int) -> bool {
        self.cache().spec_is_empty() || height == self.cache().next_key()
    }

    /// Whether the cache is at its configured capacity.
    pub open spec fn spec_cache_full(&self) -> bool {
        match self.spec_config().max_cache_blocks {
            Option::Some(m) => self.cache().spec_len() >= m,
            Option::None => false,
        }
    }

    /// Ingests one parent observation.  A filled payload must carry
    /// sequential side effects; the height must extend the cache by exactly
    /// one; a full cache refuses the insert.  On any error the state is
    /// unchanged.
    pub fn new_parent_view(
        &mut self,
        height: BlockHeight,
        maybe_payload: Option<ParentViewPayload>,
    ) -> (r: Result<(), Error>)
        requires
            old(self).wf(),
        ensures
            final(self).wf(),
            final(self).spec_config() == old(self).spec_config(),
            final(self).spec_genesis_epoch() == old(self).spec_genesis_epoch(),
            ({
                if !Self::spec_payload_ok(maybe_payload) || !old(self).spec_height_ok(
                    height as int,
                ) {
                    &&& r == Result::<(), Error>::Err(Error::NonSequentialParentViewInsert)
                    &&& *final(self) == *old(self)
                } else if old(self).spec_cache_full() {
                    &&& r == Result::<(), Error>::Err(Error::CacheFull)
                    &&& *final(self) == *old(self)
                } else {
                    &&& r == Result::<(), Error>::Ok(())
                    &&& final(self).committed() == old(self).committed()
                    &&& final(self).cache().entries() == old(self).cache().entries().push(
                        maybe_payload,
                    )
                    &&& final(self).cache().lower_key() == if old(self).cache().spec_is_empty() {
                        height as int
                    } else {
                        old(self).cache().lower_key()
                    }
                    &&& final(self).cache().upper_key() == height
                }
            }),
    {
        if let Some(p) = &maybe_payload {
            if !msgs_sequential(&p.top_down_msgs) || !changes_sequential(&p.validator_changes) {
                return Err(Error::NonSequentialParentViewInsert);
            }
        }
        let sequential = match self.cached_data.upper_bound() {
            None => true,
            Some(upper) => upper < u64::MAX && height == upper + 1,
        };
        if !sequential {
            return Err(Error::NonSequentialParentViewInsert);
        }
        if let Some(m) = self.config.max_cache_blocks {
            if self.cached_data.size() as u64 >= m {
                return Err(Error::CacheFull);
            }
        }
        let ghost pre = *self;
        match self.cached_data.append(height, maybe_payload) {
            Ok(()) => {
                proof {
                    assert forall|i: int|
                        0 <= i < self.cache().entries().len() implies slot_wf(
                        #[trigger] self.cache().entries()[i],
                    ) by {
                        if i < pre.cache().entries().len() {
                            assert(self.cache().entries()[i] == pre.cache().entries()[i]);
                        }
                    }
                }
                Ok(())
            },
            Err(_) => {
                proof {
                    assert(false);
                }
                Err(Error::NonSequentialParentViewInsert)
            },
        }
    }

    /// Installs `finality` as the committed one and prunes every cache entry
    /// strictly below its height; the entry at the height itself stays, for
    /// deferred execution.  Returns the event to hand to observers, built
    /// only after the state is written.
    pub fn set_new_finality(
        &mut self,
        finality: IPCParentFinality,
        previous_finality: Option<IPCParentFinality>,
    ) -> (r: ParentFinalityCommitted)
        requires
            old(self).wf(),
            opt_finality_eq(previous_finality, old(self).committed()),
        ensures
            final(self).wf(),
            final(self).committed() == Some(finality),
            final(self).spec_config() == old(self).spec_config(),
            final(self).spec_genesis_epoch() == old(self).spec_genesis_epoch(),
            forall|k: int|
                final(self).cache().spec_has_key(k) <==> (old(self).cache().spec_has_key(k) && k
                    >= finality.height),
            forall|k: int|
                final(self).cache().spec_has_key(k) ==> final(self).slot_at(k) == old(
                    self,
                ).slot_at(k),
            r.block_height == finality.height,
            r.block_hash@ == hex_of(finality.block_hash@),
    {
        let height = finality.height;
        let ghost pre = *self;
        self.cached_data.remove_key_below(height);
        proof {
            assert forall|i: int|
                0 <= i < self.cache().entries().len() implies slot_wf(
                #[trigger] self.cache().entries()[i],
            ) by {
                let cut = crate::cache::removed_below(pre.cache(), height as int);
                assert(self.cache().entries()[i] == pre.cache().entries()[i + cut]);
            }
        }
        let hash = hex_encode(&finality.block_hash);
        self.last_committed_finality = Some(finality);
        ParentFinalityCommitted { block_height: height, block_hash: hash }
    }
}

impl FinalityWithNull {
    /// The greatest filled height at or below `h`, scanning no lower than
    /// the cache's lower bound.
    pub open spec fn spec_first_non_null(&self, h: int) -> Option<int>
        decreases h - self.cache().lower_key() + 1,
    {
        if self.cache().spec_is_empty() || h < self.cache().lower_key() {
            Option::None
        } else if self.filled_at(h) {
            Option::Some(h)
        } else {
            self.spec_first_non_null(h - 1)
        }
    }

    /// What `spec_first_non_null` yields: a filled height in range with
    /// nothing filled above it up to `h`, or the fact that nothing at or
    /// below `h` is filled.
    pub proof fn lemma_first_non_null_props(&self, h: int)
        ensures
            match self.spec_first_non_null(h) {
                Option::Some(j) => {
                    &&& self.cache().lower_key() <= j <= h
                    &&& self.filled_at(j)
                    &&& forall|m: int| j < m <= h ==> !self.filled_at(m)
                },
                Option::None => forall|m: int| m <= h ==> !self.filled_at(m),
            },
        decreases h - self.cache().lower_key() + 1,
    {
        if self.cache().spec_is_empty() || h < self.cache().lower_key() {
        } else if self.filled_at(h) {
        } else {
            self.lemma_first_non_null_props(h - 1);
        }
    }

    /// The first non-null block in the range from the earliest cached block
    /// to `height`, inclusive.
    pub fn first_non_null_block(&self, height: BlockHeight) -> (r: Option<BlockHeight>)
        requires
            self.wf(),
        ensures
            match r {
                Option::Some(h) => self.spec_first_non_null(height as int) == Option::Some(h as int),
                Option::None => self.spec_first_non_null(height as int) is None,
            },
    {
        let lower = match self.cached_data.lower_bound() {
            None => {
                return None;
            },
            Some(l) => l,
        };
        if height < lower {
            return None;
        }
        let mut h = height;
        while h > lower
            invariant
                self.wf(),
                !self.cache().spec_is_empty(),
                lower == self.cache().lower_key(),
                lower <= h <= height,
                self.spec_first_non_null(height as int) == self.spec_first_non_null(h as int),
            decreases h,
        {
            let filled = match self.cached_data.get_value(h) {
                Some(slot) => slot.is_some(),
                None => false,
            };
            if filled {
                return Some(h);
            }
            proof {
                assert(!self.filled_at(h as int));
                assert(self.spec_first_non_null(h as int) == self.spec_first_non_null(h - 1));
            }
            h -= 1;
        }
        let filled = match self.cached_data.get_value(h) {
            Some(slot) => slot.is_some(),
            None => false,
        };
        if filled {
            return Some(h);
        }
        proof {
            assert(!self.filled_at(h as int));
            assert(self.spec_first_non_null(h - 1) is None);
            assert(self.spec_first_non_null(h as int) is None);
        }
        None
    }

    /// The height `next_proposal` would pick: walk down from the window's
    /// top to the first filled height, step down `D` more, walk down to a
    /// filled height again, and refuse the committed height itself.  Nothing
    /// is proposed before a finality has been committed or while the cache
    /// is empty.
    pub open spec fn spec_next_height(&self) -> Option<int> {
        if self.cache().spec_is_empty() {
            Option::None
        } else {
            match self.committed() {
                Option::None => Option::None,
                Option::Some(lcf) => {
                    let latest = self.cache().upper_key();
                    let max_h = lcf.height + self.spec_config().spec_max_proposal_range();
                    let candidate = if max_h < latest {
                        max_h
                    } else {
                        latest
                    };
                    match self.spec_first_non_null(candidate) {
                        Option::None => Option::None,
                        Option::Some(nn1) => {
                            match self.spec_first_non_null(
                                nn1 - self.spec_config().spec_proposal_delay(),
                            ) {
                                Option::None => Option::None,
                                Option::Some(nn2) => if nn2 == lcf.height {
                                    Option::None
                                } else {
                                    Option::Some(nn2)
                                },
                            }
                        },
                    }
                },
            }
        }
    }

    /// Picks the height of the next proposal, if any.
    fn propose_next_height(&self) -> (r: Option<BlockHeight>)
        requires
            self.wf(),
        ensures
            match r {
                Option::Some(h) => self.spec_next_height() == Option::Some(h as int),
                Option::None => self.spec_next_height() is None,
            },
    {
        let latest_height = match self.cached_data.upper_bound() {
            None => {
                return None;
            },
            Some(h) => h,
        };
        let last_committed_height = match &self.last_committed_finality {
            Some(f) => f.height,
            None => {
                return None;
            },
        };
        let max_proposal_height = last_committed_height.saturating_add(
            self.config.max_proposal_range(),
        );
        let candidate_height = if max_proposal_height < latest_height {
            max_proposal_height
        } else {
            latest_height
        };
        proof {
            let max_h = last_committed_height + self.spec_config().spec_max_proposal_range();
            assert(candidate_height as int == if max_h < self.cache().upper_key() {
                max_h
            } else {
                self.cache().upper_key()
            });
        }
        let first_non_null_height = match self.first_non_null_block(candidate_height) {
            None => {
                return None;
            },
            Some(h) => h,
        };
        let delayed_height = match first_non_null_height.checked_sub(
            self.config.proposal_delay(),
        ) {
            None => {
                proof {
                    assert(self.spec_first_non_null(
                        first_non_null_height - self.spec_config().spec_proposal_delay(),
                    ) is None);
                }
                return None;
            },
            Some(h) => h,
        };
        let maybe_proposal_height = self.first_non_null_block(delayed_height);
        match maybe_proposal_height {
            Some(proposal_height) => if proposal_height == last_committed_height {
                None
            } else {
                Some(proposal_height)
            },
            None => None,
        }
    }

    /// Picks the next proposal: the selected height together with its cached
    /// block hash.  The height is never a null round and never the committed
    /// height itself.
    pub fn next_proposal(&self) -> (r: Option<IPCParentFinality>)
        requires
            self.wf(),
        ensures
            match r {
                Option::None => self.spec_next_height() is None,
                Option::Some(p) => {
                    &&& self.spec_next_height() == Option::Some(p.height as int)
                    &&& self.filled_at(p.height as int)
                    &&& self.spec_block_hash_at(p.height as int) == Option::Some(p.block_hash@)
                },
            },
    {
        let height = match self.propose_next_height() {
            None => {
                return None;
            },
            Some(h) => h,
        };
        proof {
            self.lemma_next_height_filled();
        }
        let block_hash = match self.block_hash_at_height(height) {
            Some(bh) => bh,
            None => {
                proof {
                    assert(false);
                }
                return None;
            },
        };
        Some(IPCParentFinality { height, block_hash })
    }

    /// A proposed height is always a filled one, distinct from the committed
    /// height, so the provider knows its hash.
    pub proof fn lemma_next_height_filled(&self)
        ensures
            match self.spec_next_height() {
                Option::Some(h) => {
                    &&& self.filled_at(h)
                    &&& self.committed() is Some
                    &&& h != self.committed().unwrap().height
                    &&& self.spec_block_hash_at(h) is Some
                },
                Option::None => true,
            },
    {
        if self.spec_next_height() is Some {
            let lcf = self.committed().unwrap();
            let latest = self.cache().upper_key();
            let max_h = lcf.height + self.spec_config().spec_max_proposal_range();
            let candidate = if max_h < latest {
                max_h
            } else {
                latest
            };
            self.lemma_first_non_null_props(candidate);
            let nn1 = self.spec_first_non_null(candidate).unwrap();
            self.lemma_first_non_null_props(nn1 - self.spec_config().spec_proposal_delay());
        }
    }

    /// Whether a proposal for height `h` is acceptable at all: a finality
    /// has been committed, `h` is strictly above it, and the cache has seen
    /// at least up to `h`.
    pub open spec fn spec_check_height(&self, h: int) -> bool {
        match self.committed() {
            Option::None => false,
            Option::Some(f) => f.height < h && !self.cache().spec_is_empty() && h
                <= self.cache().upper_key(),
        }
    }

    /// Whether a proposal passes: its height is acceptable and its hash is
    /// the one the provider knows for that height.
    pub open spec fn spec_check_proposal(&self, h: int, hash: Seq<u8>) -> bool {
        self.spec_check_height(h) && self.spec_block_hash_at(h) == Option::Some(hash)
    }

    fn check_height(&self, height: BlockHeight) -> (r: bool)
        requires
            self.wf(),
        ensures
            r == self.spec_check_height(height as int),
    {
        let last_committed_finality = match &self.last_committed_finality {
            Some(f) => f,
            None => {
                return false;
            },
        };
        if last_committed_finality.height >= height {
            return false;
        }
        match self.cached_data.upper_bound() {
            Some(latest_height) => latest_height >= height,
            None => false,
        }
    }

    fn check_block_hash(&self, proposal: &IPCParentFinality) -> (r: bool)
        requires
            self.wf(),
        ensures
            r == (self.spec_block_hash_at(proposal.height as int) == Option::Some(
                proposal.block_hash@,
            )),
    {
        match self.block_hash_at_height(proposal.height) {
            Some(block_hash) => bytes_eq(&block_hash, &proposal.block_hash),
            None => false,
        }
    }

    /// Checks an incoming proposal.  It never fails: a proposal that cannot
    /// be verified for any reason answers false.  Any filled height above
    /// the committed one with a matching hash is acceptable; the check does
    /// not re-run the window/delay selection.
    pub fn check_proposal(&self, proposal: &IPCParentFinality) -> (r: bool)
        requires
            self.wf(),
        ensures
            r == self.spec_check_proposal(proposal.height as int, proposal.block_hash@),
    {
        if !self.check_height(proposal.height) {
            return false;
        }
        self.check_block_hash(proposal)
    }
}

impl FinalityWithNull {
    /// The messages a filled height contributes to a sealed proposal; null
    /// rounds and heights outside the cache contribute nothing.
    pub open spec fn msgs_at(&self, h: int) -> Seq<CrossMessage> {
        if self.filled_at(h) {
            self.payload_at(h).top_down_msgs@
        } else {
            Seq::empty()
        }
    }

    /// The change requests a filled height contributes; null rounds and
    /// heights outside the cache contribute nothing.
    pub open spec fn changes_at(&self, h: int) -> Seq<ValidatorChangeRequest> {
        if self.filled_at(h) {
            self.payload_at(h).validator_changes@
        } else {
            Seq::empty()
        }
    }

    /// All messages of the heights in `[from, to)`, in height order.
    pub open spec fn collect_msgs(&self, from: int, to: int) -> Seq<CrossMessage>
        decreases to - from,
    {
        if from >= to {
            Seq::empty()
        } else {
            self.collect_msgs(from, to - 1) + self.msgs_at(to - 1)
        }
    }

    /// All change requests of the heights in `[from, to)`, in height order.
    pub open spec fn collect_changes(&self, from: int, to: int) -> Seq<ValidatorChangeRequest>
        decreases to - from,
    {
        if from >= to {
            Seq::empty()
        } else {
            self.collect_changes(from, to - 1) + self.changes_at(to - 1)
        }
    }

    /// The commitment a sealed proposal for height `h` must carry: it covers
    /// the side effects from the committed height up to, but not including,
    /// `h` — deferred execution consumes the effects at `h` only with the
    /// next commitment.
    pub open spec fn spec_commitment_till(&self, h: int) -> Seq<u8> {
        match self.committed() {
            Option::Some(f) => commitment_of(
                self.collect_msgs(f.height as int, h),
                self.collect_changes(f.height as int, h),
            ),
            Option::None => commitment_of(Seq::empty(), Seq::empty()),
        }
    }

    /// Builds the sealed proposal from the committed height up to `height`,
    /// exclusive.
    fn proposal_sealed_till_height(&self, height: BlockHeight) -> (r: SealedTopdownProposal)
        requires
            self.wf(),
            self.committed() is Some,
            self.spec_block_hash_at(height as int) is Some,
        ensures
            r.wf(),
            r.spec_finality().height == height,
            r.spec_finality().block_hash@ == self.spec_block_hash_at(height as int).unwrap(),
            msgs_eq(
                r.spec_cross_msgs(),
                self.collect_msgs(self.committed().unwrap().height as int, height as int),
            ),
            changes_eq(
                r.spec_validator_changes(),
                self.collect_changes(self.committed().unwrap().height as int, height as int),
            ),
            r.spec_commitment() == self.spec_commitment_till(height as int),
    {
        let last_committed = match &self.last_committed_finality {
            Some(f) => f.height,
            None => {
                proof {
                    assert(false);
                }
                0
            },
        };
        let hash = match self.block_hash_at_height(height) {
            Some(h) => h,
            None => {
                proof {
                    assert(false);
                }
                Vec::new()
            },
        };
        let ghost lc = last_committed as int;
        let mut cross_msgs: Vec<CrossMessage> = Vec::new();
        let mut validator_changes: Vec<ValidatorChangeRequest> = Vec::new();
        let mut h = last_committed;
        while h < height
            invariant
                self.wf(),
                lc == last_committed as int,
                last_committed <= h,
                h <= height || h == last_committed,
                msgs_eq(cross_msgs@, self.collect_msgs(lc, h as int)),
                changes_eq(validator_changes@, self.collect_changes(lc, h as int)),
            decreases height - h,
        {
            let ghost pre_cross = cross_msgs@;
            let ghost pre_changes = validator_changes@;
            match self.cached_data.get_value(h) {
                Some(slot) => match slot {
                    Some(p) => {
                        extend_msgs(&mut cross_msgs, &p.top_down_msgs);
                        extend_changes(&mut validator_changes, &p.validator_changes);
                        proof {
                            assert(self.msgs_at(h as int) == p.top_down_msgs@);
                            assert(self.changes_at(h as int) == p.validator_changes@);
                        }
                    },
                    None => {
                        proof {
                            assert(self.msgs_at(h as int) =~= Seq::<CrossMessage>::empty());
                            assert(pre_cross + self.msgs_at(h as int) =~= pre_cross);
                            assert(pre_changes + self.changes_at(h as int) =~= pre_changes);
                        }
                    },
                },
                None => {
                    proof {
                        assert(pre_cross + self.msgs_at(h as int) =~= pre_cross);
                        assert(pre_changes + self.changes_at(h as int) =~= pre_changes);
                    }
                },
            }
            proof {
                assert(msgs_eq(cross_msgs@, pre_cross + self.msgs_at(h as int)));
                assert(changes_eq(validator_changes@, pre_changes + self.changes_at(h as int)));
                lemma_msgs_eq_concat(
                    pre_cross,
                    self.collect_msgs(lc, h as int),
                    self.msgs_at(h as int),
                    self.msgs_at(h as int),
                );
                lemma_msgs_eq_trans(
                    cross_msgs@,
                    pre_cross + self.msgs_at(h as int),
                    self.collect_msgs(lc, h as int) + self.msgs_at(h as int),
                );
                lemma_changes_eq_concat(
                    pre_changes,
                    self.collect_changes(lc, h as int),
                    self.changes_at(h as int),
                    self.changes_at(h as int),
                );
                lemma_changes_eq_trans(
                    validator_changes@,
                    pre_changes + self.changes_at(h as int),
                    self.collect_changes(lc, h as int) + self.changes_at(h as int),
                );
                assert(self.collect_msgs(lc, h + 1 as int) == self.collect_msgs(lc, h as int)
                    + self.msgs_at(h as int));
                assert(self.collect_changes(lc, h + 1 as int) == self.collect_changes(
                    lc,
                    h as int,
                ) + self.changes_at(h as int));
            }
            h += 1;
        }
        proof {
            if last_committed >= height {
                assert(self.collect_msgs(lc, height as int) =~= Seq::<CrossMessage>::empty());
                assert(self.collect_msgs(lc, h as int) =~= Seq::<CrossMessage>::empty());
                assert(self.collect_changes(lc, height as int) =~= Seq::<
                    ValidatorChangeRequest,
                >::empty());
                assert(self.collect_changes(lc, h as int) =~= Seq::<
                    ValidatorChangeRequest,
                >::empty());
            }
        }
        let ghost built_msgs = cross_msgs@;
        let ghost built_changes = validator_changes@;
        let sealed = SealedTopdownProposal::new(height, hash, cross_msgs, validator_changes);
        proof {
            lemma_commitment_deterministic(
                built_msgs,
                built_changes,
                self.collect_msgs(lc, height as int),
                self.collect_changes(lc, height as int),
            );
        }
        sealed
    }

    /// Builds a sealed proposal for `target_height`, covering everything
    /// from the committed height up to `target_height`, exclusive.  Yields
    /// nothing when the height is absent or null in the cache — the vote
    /// tally may have agreed on a height this node has no information on —
    /// or when no finality has been committed yet.
    pub fn sealed_proposal_at_height(&self, target_height: BlockHeight) -> (r: Option<
        SealedTopdownProposal,
    >)
        requires
            self.wf(),
        ensures
            r is Some <==> (self.filled_at(target_height as int) && self.committed() is Some),
            r matches Some(sp) ==> {
                &&& sp.wf()
                &&& sp.spec_finality().height == target_height
                &&& sp.spec_finality().block_hash@ == self.spec_block_hash_at(
                    target_height as int,
                ).unwrap()
                &&& msgs_eq(
                    sp.spec_cross_msgs(),
                    self.collect_msgs(
                        self.committed().unwrap().height as int,
                        target_height as int,
                    ),
                )
                &&& changes_eq(
                    sp.spec_validator_changes(),
                    self.collect_changes(
                        self.committed().unwrap().height as int,
                        target_height as int,
                    ),
                )
                &&& sp.spec_commitment() == self.spec_commitment_till(target_height as int)
            },
    {
        let filled = match self.cached_data.get_value(target_height) {
            Some(slot) => slot.is_some(),
            None => false,
        };
        if !filled {
            return None;
        }
        if self.last_committed_finality.is_none() {
            return None;
        }
        Some(self.proposal_sealed_till_height(target_height))
    }

    /// Whether a sealed proposal passes: the plain proposal check, plus a
    /// byte-for-byte match of its commitment against the one rebuilt from
    /// the local cache.
    pub open spec fn spec_check_sealed(&self, h: int, hash: Seq<u8>, commitment: Seq<u8>) -> bool {
        self.spec_check_proposal(h, hash) && commitment == self.spec_commitment_till(h)
    }

    /// Checks an incoming sealed proposal; never fails, answers false for
    /// whatever cannot be verified.
    pub fn check_sealed_proposal(&self, proposal: &SealedTopdownProposal) -> (r: bool)
        requires
            self.wf(),
        ensures
            r == self.spec_check_sealed(
                proposal.spec_finality().height as int,
                proposal.spec_finality().block_hash@,
                proposal.spec_commitment(),
            ),
    {
        let finality = proposal.finality();
        if !self.check_proposal(finality) {
            return false;
        }
        proof {
            assert(self.filled_at(finality.height as int));
        }
        let expected = self.proposal_sealed_till_height(finality.height);
        bytes_eq(proposal.commitment(), expected.commitment())
    }

    /// Commits the finality a sealed proposal carries, exactly as
    /// `set_new_finality` does.
    pub fn set_new_sealed_finality(
        &mut self,
        sealed_proposal: SealedTopdownProposal,
        previous_finality: Option<IPCParentFinality>,
    ) -> (r: ParentFinalityCommitted)
        requires
            old(self).wf(),
            opt_finality_eq(previous_finality, old(self).committed()),
        ensures
            final(self).wf(),
            final(self).committed() matches Some(f) && finality_eq(
                f,
                sealed_proposal.spec_finality(),
            ),
            final(self).spec_config() == old(self).spec_config(),
            final(self).spec_genesis_epoch() == old(self).spec_genesis_epoch(),
            forall|k: int|
                final(self).cache().spec_has_key(k) <==> (old(self).cache().spec_has_key(k) && k
                    >= sealed_proposal.spec_finality().height),
            forall|k: int|
                final(self).cache().spec_has_key(k) ==> final(self).slot_at(k) == old(
                    self,
                ).slot_at(k),
            r.block_height == sealed_proposal.spec_finality().height,
            r.block_hash@ == hex_of(sealed_proposal.spec_finality().block_hash@),
    {
        let f = sealed_proposal.finality();
        let finality = IPCParentFinality::new(f.height, clone_bytes(&f.block_hash));
        self.set_new_finality(finality, previous_finality)
    }
}

impl FinalityWithNull {
    /// A proposed height always falls in the window: strictly above the last
    /// committed height, at most `W` above it, and at least `D` below the
    /// newest cached height — provided the cache holds no height below the
    /// committed one, as rebuilding it from the committed finality
    /// guarantees.
    pub proof fn lemma_next_height_in_window(&self)
        requires
            self.wf(),
            self.committed() is Some,
            !self.cache().spec_is_empty() ==> self.cache().lower_key()
                >= self.committed().unwrap().height,
        ensures
            match self.spec_next_height() {
                Option::Some(h) => {
                    &&& self.committed().unwrap().height < h
                    &&& h <= self.committed().unwrap().height
                        + self.spec_config().spec_max_proposal_range()
                    &&& h + self.spec_config().spec_proposal_delay() <= self.cache().upper_key()
                },
                Option::None => true,
            },
    {
        if self.spec_next_height() is Some {
            let lcf = self.committed().unwrap();
            let latest = self.cache().upper_key();
            let max_h = lcf.height + self.spec_config().spec_max_proposal_range();
            let candidate = if max_h < latest {
                max_h
            } else {
                latest
            };
            self.lemma_first_non_null_props(candidate);
            let nn1 = self.spec_first_non_null(candidate).unwrap();
            self.lemma_first_non_null_props(nn1 - self.spec_config().spec_proposal_delay());
        }
    }

    /// Monotone commitment: any proposal that passes the check sits strictly
    /// above the committed finality, so committing checked proposals only
    /// ever moves the committed height up.
    pub proof fn lemma_checked_commit_is_monotone(&self, h: int, hash: Seq<u8>)
        requires
            self.spec_check_proposal(h, hash),
        ensures
            self.committed() is Some,
            self.committed().unwrap().height < h,
    {
    }

    /// Round trip: a proposal the provider itself makes always passes its
    /// own check, under the same cache assumption.
    pub proof fn lemma_proposal_round_trip(&self)
        requires
            self.wf(),
            self.committed() is Some,
            !self.cache().spec_is_empty() ==> self.cache().lower_key()
                >= self.committed().unwrap().height,
        ensures
            match self.spec_next_height() {
                Option::Some(h) => self.spec_check_proposal(
                    h,
                    self.spec_block_hash_at(h).unwrap(),
                ),
                Option::None => true,
            },
    {
        self.lemma_next_height_in_window();
        self.lemma_next_height_filled();
    }

    /// Round trip for sealed proposals: one the provider builds itself for a
    /// filled height inside the checkable window passes its own sealed check,
    /// since it carries exactly the hash and the commitment the verifier
    /// rebuilds.
    pub proof fn lemma_sealed_round_trip(&self, h: int)
        requires
            self.wf(),
            self.filled_at(h),
            self.committed() is Some,
            self.committed().unwrap().height < h,
            h <= self.cache().upper_key(),
        ensures
            self.spec_check_sealed(
                h,
                self.spec_block_hash_at(h).unwrap(),
                self.spec_commitment_till(h),
            ),
    {
    }

    /// Determinism: two providers holding the same observations — slot for
    /// slot — over the same key range, with equally high committed
    /// finalities, build byte-identical sealed commitments at every height.
    pub proof fn lemma_sealed_commitment_deterministic(
        a: &FinalityWithNull,
        b: &FinalityWithNull,
        h: int,
    )
        requires
            a.committed() is Some,
            b.committed() is Some,
            a.committed().unwrap().height == b.committed().unwrap().height,
            a.cache().spec_len() == b.cache().spec_len(),
            a.cache().lower_key() == b.cache().lower_key(),
            forall|i: int|
                0 <= i < a.cache().entries().len() ==> slot_eq(
                    #[trigger] a.cache().entries()[i],
                    b.cache().entries()[i],
                ),
        ensures
            a.spec_commitment_till(h) == b.spec_commitment_till(h),
    {
        let lc = a.committed().unwrap().height as int;
        Self::lemma_collect_eq(a, b, lc, h);
        lemma_commitment_deterministic(
            a.collect_msgs(lc, h),
            a.collect_changes(lc, h),
            b.collect_msgs(lc, h),
            b.collect_changes(lc, h),
        );
    }

    proof fn lemma_collect_eq(a: &FinalityWithNull, b: &FinalityWithNull, from: int, to: int)
        requires
            a.cache().spec_len() == b.cache().spec_len(),
            a.cache().lower_key() == b.cache().lower_key(),
            forall|i: int|
                0 <= i < a.cache().entries().len() ==> slot_eq(
                    #[trigger] a.cache().entries()[i],
                    b.cache().entries()[i],
                ),
        ensures
            msgs_eq(a.collect_msgs(from, to), b.collect_msgs(from, to)),
            changes_eq(a.collect_changes(from, to), b.collect_changes(from, to)),
        decreases to - from,
    {
        if from < to {
            Self::lemma_collect_eq(a, b, from, to - 1);
            let k = to - 1;
            if a.cache().spec_has_key(k) {
                assert(slot_eq(
                    a.cache().entries()[k - a.cache().lower_key()],
                    b.cache().entries()[k - b.cache().lower_key()],
                ));
            }
            assert(msgs_eq(a.msgs_at(k), b.msgs_at(k)));
            assert(changes_eq(a.changes_at(k), b.changes_at(k)));
            lemma_msgs_eq_concat(
                a.collect_msgs(from, k),
                b.collect_msgs(from, k),
                a.msgs_at(k),
                b.msgs_at(k),
            );
            lemma_changes_eq_concat(
                a.collect_changes(from, k),
                b.collect_changes(from, k),
                a.changes_at(k),
                b.changes_at(k),
            );
        }
    }
}

} // verus!
