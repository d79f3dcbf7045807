//! Sealed top-down proposals.  A sealed proposal carries, besides the
//! finality pair, the side effects it covers and a content-addressed
//! commitment over them, so that validators can agree on the content bit for
//! bit.  The commitment is a CID (version one, raw codec) whose multihash is
//! a 32-byte BLAKE2b digest of a canonical, order-sensitive encoding of the
//! side effects.

use vstd::prelude::*;
use crate::{BlockHash, BlockHeight, IPCParentFinality};
use crate::payload::{
    CrossMessage, ValidatorChangeRequest, msg_eq, msgs_eq, change_eq, changes_eq,
};

verus! {

/// The eight bytes of `v`, least significant first.
pub open spec fn enc_u64(v: u64) -> Seq<u8> {
    seq![
        (v & 0xff) as u8,
        ((v >> 8) & 0xff) as u8,
        ((v >> 16) & 0xff) as u8,
        ((v >> 24) & 0xff) as u8,
        ((v >> 32) & 0xff) as u8,
        ((v >> 40) & 0xff) as u8,
        ((v >> 48) & 0xff) as u8,
        ((v >> 56) & 0xff) as u8,
    ]
}

/// A length-prefixed byte string.
pub open spec fn enc_bytes(b: Seq<u8>) -> Seq<u8> {
    enc_u64(b.len() as u64) + b
}

/// One cross-message: its nonce, then its length-prefixed body.
pub open spec fn enc_msg(m: CrossMessage) -> Seq<u8> {
    enc_u64(m.nonce) + enc_bytes(m.payload@)
}

/// One change request: its configuration number, then its length-prefixed
/// body.
pub open spec fn enc_change(c: ValidatorChangeRequest) -> Seq<u8> {
    enc_u64(c.configuration_number) + enc_bytes(c.payload@)
}

/// The messages one after another, in sequence order.
pub open spec fn enc_msgs(s: Seq<CrossMessage>) -> Seq<u8>
    decreases s.len(),
{
    if s.len() == 0 {
        Seq::empty()
    } else {
        enc_msgs(s.drop_last()) + enc_msg(s.last())
    }
}

/// The change requests one after another, in sequence order.
pub open spec fn enc_changes(s: Seq<ValidatorChangeRequest>) -> Seq<u8>
    decreases s.len(),
{
    if s.len() == 0 {
        Seq::empty()
    } else {
        enc_changes(s.drop_last()) + enc_change(s.last())
    }
}

/// The canonical encoding of a proposal's side effects: each section is
/// preceded by its element count, cross-messages first.
pub open spec fn enc_side_effects(
    cross: Seq<CrossMessage>,
    changes: Seq<ValidatorChangeRequest>,
) -> Seq<u8> {
    enc_u64(cross.len() as u64) + enc_msgs(cross) + enc_u64(changes.len() as u64) + enc_changes(
        changes,
    )
}

/// The 32-byte BLAKE2b digest of `data`, named so that contracts can speak
/// of it; the digest is a function of the input bytes alone.
pub uninterp spec fn blake2b256_of(data: Seq<u8>) -> Seq<u8>;

/// Relies on blake2b_simd::Params::hash, configured by Params::hash_length
/// for a 32-byte final hash: the digest depends on the input bytes alone and
/// is 32 bytes long.
#[verifier::external_body]
fn blake2b256(data: &Vec<u8>) -> (r: Vec<u8>)
    ensures
        r@ == blake2b256_of(data@),
        r@.len() == 32,
{
    let hash = blake2b_simd::Params::new().hash_length(32).hash(data.as_slice());
    hash.as_bytes().to_vec()
}

/// The leading bytes of a version-one CID with the raw codec and a 32-byte
/// BLAKE2b multihash: version, codec, the varint hash code, and the digest
/// length.
pub open spec fn cid_prefix() -> Seq<u8> {
    seq![0x01u8, 0x55u8, 0xa0u8, 0xe4u8, 0x02u8, 0x20u8]
}

/// The commitment over a proposal's side effects: a CID over their canonical
/// encoding.  It is deterministic and order-sensitive because the encoding
/// is.
pub open spec fn commitment_of(
    cross: Seq<CrossMessage>,
    changes: Seq<ValidatorChangeRequest>,
) -> Seq<u8> {
    cid_prefix() + blake2b256_of(enc_side_effects(cross, changes))
}

/// Appends the eight little-endian bytes of `v`.
fn push_u64(out: &mut Vec<u8>, v: u64)
    ensures
        final(out)@ == old(out)@ + enc_u64(v),
{
    proof {
        assert(v & 0xff < 256 && (v >> 8) & 0xff < 256 && (v >> 16) & 0xff < 256 && (v >> 24)
            & 0xff < 256 && (v >> 32) & 0xff < 256 && (v >> 40) & 0xff < 256 && (v >> 48) & 0xff
            < 256 && (v >> 56) & 0xff < 256) by (bit_vector);
    }
    out.push((v & 0xff) as u8);
    out.push(((v >> 8) & 0xff) as u8);
    out.push(((v >> 16) & 0xff) as u8);
    out.push(((v >> 24) & 0xff) as u8);
    out.push(((v >> 32) & 0xff) as u8);
    out.push(((v >> 40) & 0xff) as u8);
    out.push(((v >> 48) & 0xff) as u8);
    out.push(((v >> 56) & 0xff) as u8);
    proof {
        assert(out@ =~= old(out)@ + enc_u64(v));
    }
}

/// Appends all of `bytes`.
fn push_bytes(out: &mut Vec<u8>, bytes: &Vec<u8>)
    ensures
        final(out)@ == old(out)@ + bytes@,
{
    let mut i: usize = 0;
    while i < bytes.len()
        invariant
            i <= bytes.len(),
            out@ == old(out)@ + bytes@.subrange(0, i as int),
        decreases bytes.len() - i,
    {
        out.push(bytes[i]);
        proof {
            assert(out@ =~= old(out)@ + bytes@.subrange(0, i + 1 as int));
        }
        i += 1;
    }
    proof {
        assert(out@ =~= old(out)@ + bytes@);
    }
}

/// Appends the encoding of one cross-message.
fn push_msg(out: &mut Vec<u8>, m: &CrossMessage)
    ensures
        final(out)@ == old(out)@ + enc_msg(*m),
{
    push_u64(out, m.nonce);
    push_u64(out, m.payload.len() as u64);
    push_bytes(out, &m.payload);
    proof {
        assert(out@ =~= old(out)@ + enc_msg(*m));
    }
}

/// Appends the encoding of one change request.
fn push_change(out: &mut Vec<u8>, c: &ValidatorChangeRequest)
    ensures
        final(out)@ == old(out)@ + enc_change(*c),
{
    push_u64(out, c.configuration_number);
    push_u64(out, c.payload.len() as u64);
    push_bytes(out, &c.payload);
    proof {
        assert(out@ =~= old(out)@ + enc_change(*c));
    }
}

proof fn lemma_enc_msgs_step(s: Seq<CrossMessage>, i: int)
    requires
        0 <= i < s.len(),
    ensures
        enc_msgs(s.subrange(0, i + 1)) == enc_msgs(s.subrange(0, i)) + enc_msg(s[i]),
{
    let t = s.subrange(0, i + 1);
    assert(t.drop_last() =~= s.subrange(0, i));
    assert(t.last() == s[i]);
}

proof fn lemma_enc_changes_step(s: Seq<ValidatorChangeRequest>, i: int)
    requires
        0 <= i < s.len(),
    ensures
        enc_changes(s.subrange(0, i + 1)) == enc_changes(s.subrange(0, i)) + enc_change(s[i]),
{
    let t = s.subrange(0, i + 1);
    assert(t.drop_last() =~= s.subrange(0, i));
    assert(t.last() == s[i]);
}

/// Builds the canonical side-effect encoding.
pub(crate) fn encode_side_effects(
    cross: &Vec<CrossMessage>,
    changes: &Vec<ValidatorChangeRequest>,
) -> (r: Vec<u8>)
    ensures
        r@ == enc_side_effects(cross@, changes@),
{
    let mut out: Vec<u8> = Vec::new();
    push_u64(&mut out, cross.len() as u64);
    let mut i: usize = 0;
    while i < cross.len()
        invariant
            i <= cross.len(),
            out@ == enc_u64(cross@.len() as u64) + enc_msgs(cross@.subrange(0, i as int)),
        decreases cross.len() - i,
    {
        push_msg(&mut out, &cross[i]);
        proof {
            lemma_enc_msgs_step(cross@, i as int);
            assert(out@ =~= enc_u64(cross@.len() as u64) + enc_msgs(
                cross@.subrange(0, i + 1 as int),
            ));
        }
        i += 1;
    }
    proof {
        assert(cross@.subrange(0, cross@.len() as int) =~= cross@);
    }
    push_u64(&mut out, changes.len() as u64);
    let ghost first_half = enc_u64(cross@.len() as u64) + enc_msgs(cross@) + enc_u64(
        changes@.len() as u64,
    );
    proof {
        assert(out@ =~= first_half);
    }
    let mut j: usize = 0;
    while j < changes.len()
        invariant
            j <= changes.len(),
            out@ == first_half + enc_changes(changes@.subrange(0, j as int)),
        decreases changes.len() - j,
    {
        push_change(&mut out, &changes[j]);
        proof {
            lemma_enc_changes_step(changes@, j as int);
            assert(out@ =~= first_half + enc_changes(changes@.subrange(0, j + 1 as int)));
        }
        j += 1;
    }
    proof {
        assert(changes@.subrange(0, changes@.len() as int) =~= changes@);
        assert(out@ =~= enc_side_effects(cross@, changes@));
    }
    out
}

/// Computes the commitment over the given side effects.
pub(crate) fn compute_commitment(
    cross: &Vec<CrossMessage>,
    changes: &Vec<ValidatorChangeRequest>,
) -> (r: Vec<u8>)
    ensures
        r@ == commitment_of(cross@, changes@),
{
    let encoded = encode_side_effects(cross, changes);
    let digest = blake2b256(&encoded);
    let mut out: Vec<u8> = Vec::new();
    out.push(0x01u8);
    out.push(0x55u8);
    out.push(0xa0u8);
    out.push(0xe4u8);
    out.push(0x02u8);
    out.push(0x20u8);
    proof {
        assert(out@ =~= cid_prefix());
    }
    push_bytes(&mut out, &digest);
    proof {
        assert(out@ =~= commitment_of(cross@, changes@));
    }
    out
}

/// A proposal whose content-addressed commitment fingerprints the side
/// effects it carries.
pub struct SealedTopdownProposal {
    finality: IPCParentFinality,
    commitment: Vec<u8>,
    cross_msgs: Vec<CrossMessage>,
    validator_changes: Vec<ValidatorChangeRequest>,
}

impl SealedTopdownProposal {
    pub closed spec fn spec_finality(&self) -> IPCParentFinality {
        self.finality
    }

    pub closed spec fn spec_commitment(&self) -> Seq<u8> {
        self.commitment@
    }

    pub closed spec fn spec_cross_msgs(&self) -> Seq<CrossMessage> {
        self.cross_msgs@
    }

    pub closed spec fn spec_validator_changes(&self) -> Seq<ValidatorChangeRequest> {
        self.validator_changes@
    }

    /// The commitment always fingerprints exactly the carried side effects.
    pub open spec fn wf(&self) -> bool {
        self.spec_commitment() == commitment_of(self.spec_cross_msgs(), self.spec_validator_changes())
    }

    /// Seals `cross_msgs` and `validator_changes` under a freshly computed
    /// commitment for a proposal of `block_hash` at `height`.
    pub fn new(
        height: BlockHeight,
        block_hash: BlockHash,
        cross_msgs: Vec<CrossMessage>,
        validator_changes: Vec<ValidatorChangeRequest>,
    ) -> (r: Self)
        ensures
            r.wf(),
            r.spec_finality().height == height,
            r.spec_finality().block_hash == block_hash,
            r.spec_cross_msgs() == cross_msgs@,
            r.spec_validator_changes() == validator_changes@,
    {
        let commitment = compute_commitment(&cross_msgs, &validator_changes);
        SealedTopdownProposal {
            finality: IPCParentFinality::new(height, block_hash),
            commitment,
            cross_msgs,
            validator_changes,
        }
    }

    /// The finality pair this proposal commits to.
    pub fn finality(&self) -> (r: &IPCParentFinality)
        ensures
            *r == self.spec_finality(),
    {
        &self.finality
    }

    /// The commitment bytes.
    pub fn commitment(&self) -> (r: &Vec<u8>)
        ensures
            r@ == self.spec_commitment(),
    {
        &self.commitment
    }

    /// The cross-messages covered by the proposal, in ingestion order.
    pub fn cross_msgs(&self) -> (r: &Vec<CrossMessage>)
        ensures
            r@ == self.spec_cross_msgs(),
    {
        &self.cross_msgs
    }

    /// The validator changes covered by the proposal, in ingestion order.
    pub fn validator_changes(&self) -> (r: &Vec<ValidatorChangeRequest>)
        ensures
            r@ == self.spec_validator_changes(),
    {
        &self.validator_changes
    }
}

proof fn lemma_enc_msgs_congruent(a: Seq<CrossMessage>, b: Seq<CrossMessage>)
    requires
        msgs_eq(a, b),
    ensures
        enc_msgs(a) == enc_msgs(b),
    decreases a.len(),
{
    if a.len() > 0 {
        assert(msg_eq(a.last(), b.last()));
        assert(msgs_eq(a.drop_last(), b.drop_last()));
        lemma_enc_msgs_congruent(a.drop_last(), b.drop_last());
        assert(enc_msg(a.last()) == enc_msg(b.last()));
    }
}

proof fn lemma_enc_changes_congruent(a: Seq<ValidatorChangeRequest>, b: Seq<ValidatorChangeRequest>)
    requires
        changes_eq(a, b),
    ensures
        enc_changes(a) == enc_changes(b),
    decreases a.len(),
{
    if a.len() > 0 {
        assert(change_eq(a.last(), b.last()));
        assert(changes_eq(a.drop_last(), b.drop_last()));
        lemma_enc_changes_congruent(a.drop_last(), b.drop_last());
        assert(enc_change(a.last()) == enc_change(b.last()));
    }
}

/// Determinism of the commitment: any two proposers that cover the same side
/// effects — equal messages and equal change requests, element by element —
/// compute byte-identical commitments.
pub proof fn lemma_commitment_deterministic(
    cross_a: Seq<CrossMessage>,
    changes_a: Seq<ValidatorChangeRequest>,
    cross_b: Seq<CrossMessage>,
    changes_b: Seq<ValidatorChangeRequest>,
)
    requires
        msgs_eq(cross_a, cross_b),
        changes_eq(changes_a, changes_b),
    ensures
        commitment_of(cross_a, changes_a) == commitment_of(cross_b, changes_b),
{
    lemma_enc_msgs_congruent(cross_a, cross_b);
    lemma_enc_changes_congruent(changes_a, changes_b);
}

} // verus!
