//! What a single parent height contributes: a block hash plus the side
//! effects observed in that block — top-down cross-messages and validator
//! change requests.  A height with no block at all is a *null round* and is
//! represented by `None` at the cache slot.

use vstd::prelude::*;
use crate::BlockHash;
use crate::clone_bytes;

verus! {

/// A parent-chain event that updates the child's validator configuration.
pub struct ValidatorChangeRequest {
    /// Monotonic within a sequence of requests.
    pub configuration_number: u64,
    /// The body of the request, carried through opaquely.
    pub payload: Vec<u8>,
}

/// A message originating on the parent and destined for the child.
pub struct CrossMessage {
    /// Monotonic within a sequence of messages.
    pub nonce: u64,
    /// The body of the message, carried through opaquely.
    pub payload: Vec<u8>,
}

/// Everything observed in one filled parent block.
pub struct ParentViewPayload {
    pub block_hash: BlockHash,
    pub validator_changes: Vec<ValidatorChangeRequest>,
    pub top_down_msgs: Vec<CrossMessage>,
}

impl Clone for ValidatorChangeRequest {
    fn clone(&self) -> (r: Self)
        ensures
            change_eq(r, *self),
    {
        ValidatorChangeRequest {
            configuration_number: self.configuration_number,
            payload: clone_bytes(&self.payload),
        }
    }
}

impl Clone for CrossMessage {
    fn clone(&self) -> (r: Self)
        ensures
            msg_eq(r, *self),
    {
        CrossMessage { nonce: self.nonce, payload: clone_bytes(&self.payload) }
    }
}

impl Clone for ParentViewPayload {
    fn clone(&self) -> (r: Self)
        ensures
            payload_eq(r, *self),
    {
        ParentViewPayload {
            block_hash: clone_bytes(&self.block_hash),
            validator_changes: clone_changes(&self.validator_changes),
            top_down_msgs: clone_msgs(&self.top_down_msgs),
        }
    }
}

/// Two messages carry the same data.
pub open spec fn msg_eq(a: CrossMessage, b: CrossMessage) -> bool {
    a.nonce == b.nonce && a.payload@ == b.payload@
}

/// Two message sequences carry the same data, element by element.
pub open spec fn msgs_eq(a: Seq<CrossMessage>, b: Seq<CrossMessage>) -> bool {
    a.len() == b.len() && forall|i: int| 0 <= i < a.len() ==> msg_eq(#[trigger] a[i], b[i])
}

/// Two change requests carry the same data.
pub open spec fn change_eq(a: ValidatorChangeRequest, b: ValidatorChangeRequest) -> bool {
    a.configuration_number == b.configuration_number && a.payload@ == b.payload@
}

/// Two change-request sequences carry the same data, element by element.
pub open spec fn changes_eq(a: Seq<ValidatorChangeRequest>, b: Seq<ValidatorChangeRequest>) -> bool {
    a.len() == b.len() && forall|i: int| 0 <= i < a.len() ==> change_eq(#[trigger] a[i], b[i])
}

/// Two filled payloads carry the same data.
pub open spec fn payload_eq(a: ParentViewPayload, b: ParentViewPayload) -> bool {
    &&& a.block_hash@ == b.block_hash@
    &&& changes_eq(a.validator_changes@, b.validator_changes@)
    &&& msgs_eq(a.top_down_msgs@, b.top_down_msgs@)
}

/// Two cache slots carry the same data.
pub open spec fn slot_eq(a: Option<ParentViewPayload>, b: Option<ParentViewPayload>) -> bool {
    match (a, b) {
        (Option::None, Option::None) => true,
        (Option::Some(x), Option::Some(y)) => payload_eq(x, y),
        _ => false,
    }
}

/// Cross-messages must arrive strictly sequential by nonce.
pub open spec fn nonces_sequential(s: Seq<CrossMessage>) -> bool {
    forall|i: int| 0 < i < s.len() ==> #[trigger] s[i].nonce == s[i - 1].nonce + 1
}

/// Validator changes must arrive strictly sequential by configuration number.
pub open spec fn config_numbers_sequential(s: Seq<ValidatorChangeRequest>) -> bool {
    forall|i: int|
        0 < i < s.len() ==> #[trigger] s[i].configuration_number == s[i
            - 1].configuration_number + 1
}

/// A filled payload is well formed when both embedded sequences are
/// sequential.
pub open spec fn payload_wf(p: ParentViewPayload) -> bool {
    nonces_sequential(p.top_down_msgs@) && config_numbers_sequential(p.validator_changes@)
}

/// A cache slot is well formed when it is a null round or a well-formed
/// payload.
pub open spec fn slot_wf(s: Option<ParentViewPayload>) -> bool {
    match s {
        Option::Some(p) => payload_wf(p),
        Option::None => true,
    }
}

/// Decides whether the messages are strictly sequential by nonce.
pub fn msgs_sequential(v: &Vec<CrossMessage>) -> (r: bool)
    ensures
        r == nonces_sequential(v@),
{
    let mut i: usize = 1;
    while i < v.len()
        invariant
            1 <= i,
            forall|j: int| 0 < j < i && j < v@.len() ==> #[trigger] v@[j].nonce == v@[j - 1].nonce
                + 1,
        decreases v.len() - i,
    {
        let prev = v[i - 1].nonce;
        let cur = v[i].nonce;
        if !(prev < u64::MAX && cur == prev + 1) {
            assert(!nonces_sequential(v@));
            return false;
        }
        i += 1;
    }
    true
}

/// Decides whether the change requests are strictly sequential by
/// configuration number.
pub fn changes_sequential(v: &Vec<ValidatorChangeRequest>) -> (r: bool)
    ensures
        r == config_numbers_sequential(v@),
{
    let mut i: usize = 1;
    while i < v.len()
        invariant
            1 <= i,
            forall|j: int|
                0 < j < i && j < v@.len() ==> #[trigger] v@[j].configuration_number == v@[j
                    - 1].configuration_number + 1,
        decreases v.len() - i,
    {
        let prev = v[i - 1].configuration_number;
        let cur = v[i].configuration_number;
        if !(prev < u64::MAX && cur == prev + 1) {
            assert(!config_numbers_sequential(v@));
            return false;
        }
        i += 1;
    }
    true
}

/// Element-wise equality is preserved by concatenation.
pub proof fn lemma_msgs_eq_concat(
    a1: Seq<CrossMessage>,
    b1: Seq<CrossMessage>,
    a2: Seq<CrossMessage>,
    b2: Seq<CrossMessage>,
)
    requires
        msgs_eq(a1, b1),
        msgs_eq(a2, b2),
    ensures
        msgs_eq(a1 + a2, b1 + b2),
{
    assert forall|i: int| 0 <= i < (a1 + a2).len() implies msg_eq(#[trigger] (a1 + a2)[i], (b1
        + b2)[i]) by {
        if i < a1.len() {
            assert(msg_eq(a1[i], b1[i]));
        } else {
            assert(msg_eq(a2[i - a1.len()], b2[i - a1.len()]));
        }
    }
}

/// Element-wise equality is preserved by concatenation.
pub proof fn lemma_changes_eq_concat(
    a1: Seq<ValidatorChangeRequest>,
    b1: Seq<ValidatorChangeRequest>,
    a2: Seq<ValidatorChangeRequest>,
    b2: Seq<ValidatorChangeRequest>,
)
    requires
        changes_eq(a1, b1),
        changes_eq(a2, b2),
    ensures
        changes_eq(a1 + a2, b1 + b2),
{
    assert forall|i: int| 0 <= i < (a1 + a2).len() implies change_eq(#[trigger] (a1 + a2)[i], (b1
        + b2)[i]) by {
        if i < a1.len() {
            assert(change_eq(a1[i], b1[i]));
        } else {
            assert(change_eq(a2[i - a1.len()], b2[i - a1.len()]));
        }
    }
}

/// Element-wise equality is transitive.
pub proof fn lemma_msgs_eq_trans(a: Seq<CrossMessage>, b: Seq<CrossMessage>, c: Seq<CrossMessage>)
    requires
        msgs_eq(a, b),
        msgs_eq(b, c),
    ensures
        msgs_eq(a, c),
{
    assert forall|i: int| 0 <= i < a.len() implies msg_eq(#[trigger] a[i], c[i]) by {
        assert(msg_eq(a[i], b[i]));
        assert(msg_eq(b[i], c[i]));
    }
}

/// Element-wise equality is transitive.
pub proof fn lemma_changes_eq_trans(
    a: Seq<ValidatorChangeRequest>,
    b: Seq<ValidatorChangeRequest>,
    c: Seq<ValidatorChangeRequest>,
)
    requires
        changes_eq(a, b),
        changes_eq(b, c),
    ensures
        changes_eq(a, c),
{
    assert forall|i: int| 0 <= i < a.len() implies change_eq(#[trigger] a[i], c[i]) by {
        assert(change_eq(a[i], b[i]));
        assert(change_eq(b[i], c[i]));
    }
}

/// Appends a copy of every message in `src` to `dst`.
pub fn extend_msgs(dst: &mut Vec<CrossMessage>, src: &Vec<CrossMessage>)
    ensures
        msgs_eq(final(dst)@, old(dst)@ + src@),
{
    let mut i: usize = 0;
    while i < src.len()
        invariant
            i <= src.len(),
            msgs_eq(dst@, old(dst)@ + src@.subrange(0, i as int)),
        decreases src.len() - i,
    {
        dst.push(src[i].clone());
        proof {
            assert(old(dst)@ + src@.subrange(0, i + 1 as int) =~= (old(dst)@ + src@.subrange(
                0,
                i as int,
            )).push(src@[i as int]));
            assert(msgs_eq(dst@, old(dst)@ + src@.subrange(0, i + 1 as int)));
        }
        i += 1;
    }
    proof {
        assert(src@.subrange(0, src@.len() as int) =~= src@);
    }
}

/// Appends a copy of every change request in `src` to `dst`.
pub fn extend_changes(dst: &mut Vec<ValidatorChangeRequest>, src: &Vec<ValidatorChangeRequest>)
    ensures
        changes_eq(final(dst)@, old(dst)@ + src@),
{
    let mut i: usize = 0;
    while i < src.len()
        invariant
            i <= src.len(),
            changes_eq(dst@, old(dst)@ + src@.subrange(0, i as int)),
        decreases src.len() - i,
    {
        dst.push(src[i].clone());
        proof {
            assert(old(dst)@ + src@.subrange(0, i + 1 as int) =~= (old(dst)@ + src@.subrange(
                0,
                i as int,
            )).push(src@[i as int]));
            assert(changes_eq(dst@, old(dst)@ + src@.subrange(0, i + 1 as int)));
        }
        i += 1;
    }
    proof {
        assert(src@.subrange(0, src@.len() as int) =~= src@);
    }
}

/// Copies a message vector element by element.
pub fn clone_msgs(v: &Vec<CrossMessage>) -> (r: Vec<CrossMessage>)
    ensures
        msgs_eq(r@, v@),
{
    let mut r: Vec<CrossMessage> = Vec::new();
    let mut i: usize = 0;
    while i < v.len()
        invariant
            i <= v.len(),
            r@.len() == i,
            forall|j: int| 0 <= j < i ==> msg_eq(#[trigger] r@[j], v@[j]),
        decreases v.len() - i,
    {
        r.push(v[i].clone());
        i += 1;
    }
    r
}

/// Copies a change-request vector element by element.
pub fn clone_changes(v: &Vec<ValidatorChangeRequest>) -> (r: Vec<ValidatorChangeRequest>)
    ensures
        changes_eq(r@, v@),
{
    let mut r: Vec<ValidatorChangeRequest> = Vec::new();
    let mut i: usize = 0;
    while i < v.len()
        invariant
            i <= v.len(),
            r@.len() == i,
            forall|j: int| 0 <= j < i ==> change_eq(#[trigger] r@[j], v@[j]),
        decreases v.len() - i,
    {
        r.push(v[i].clone());
        i += 1;
    }
    r
}

} // verus!
