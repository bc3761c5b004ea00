//! The committee pub/sub channel: one append-only, version-numbered slot per
//! member. Publication enforces strictly increasing versions per slot
//! (replay protection); polling verifies each message's signature against
//! the slot owner's key and drops what does not verify.

use vstd::prelude::*;

use crate::evaluator::{spec_share_valid, verify_share, BlockCandidate, CommitteeResponse,
    SignatureShare};

verus! {

/// The payload kinds carried on the channel: a closed set, extended only by
/// adding a variant here.
#[derive(Clone, Copy, Debug, PartialEq, Eq, Structural)]
pub enum SignerMessage {
    /// A leader's block candidate.
    Proposal(BlockCandidate),
    /// A member's signed verdict.
    Response(CommitteeResponse),
    /// An operator asks a member where it stands.
    StatusRequest,
    /// A member's answer: the reward cycle it serves and whether its cycle
    /// state is active.
    StatusResponse {
        /// The reward cycle the member believes it serves.
        reward_cycle: u64,
        /// True when the member's cycle state is active.
        active: bool,
    },
}

/// The digest a channel signature covers: a deterministic mix of the
/// payload's variant and its principal field.
pub open spec fn spec_message_digest(m: SignerMessage) -> u64 {
    match m {
        SignerMessage::Proposal(c) => ((1 * 0x9E3779B97F4A7C15 + c.signature_hash) as u64),
        SignerMessage::Response(r) => ((2 * 0x9E3779B97F4A7C15 + r.spec_signature_hash()) as u64),
        SignerMessage::StatusRequest => ((3 * 0x9E3779B97F4A7C15) as u64),
        SignerMessage::StatusResponse { reward_cycle, active } => ((4 * 0x9E3779B97F4A7C15
            + reward_cycle + (if active {
            1int
        } else {
            0int
        })) as u64),
    }
}

/// Compute the digest a channel signature covers.
pub fn message_digest(m: &SignerMessage) -> (r: u64)
    ensures
        r == spec_message_digest(*m),
{
    match m {
        SignerMessage::Proposal(c) => {
            #[verifier::truncate]
            let d = ((1u128 * 0x9E3779B97F4A7C15u128 + (c.signature_hash as u128)) as u64);
            d
        },
        SignerMessage::Response(resp) => {
            #[verifier::truncate]
            let d = ((2u128 * 0x9E3779B97F4A7C15u128 + (resp.signature_hash() as u128)) as u64);
            d
        },
        SignerMessage::StatusRequest => {
            #[verifier::truncate]
            let d = ((3u128 * 0x9E3779B97F4A7C15u128) as u64);
            d
        },
        SignerMessage::StatusResponse { reward_cycle, active } => {
            let a: u128 = if *active {
                1
            } else {
                0
            };
            #[verifier::truncate]
            let d = ((4u128 * 0x9E3779B97F4A7C15u128 + (*reward_cycle as u128) + a) as u64);
            d
        },
    }
}

/// One message as it sits in a slot.
#[derive(Clone, Copy, Debug, PartialEq, Eq, Structural)]
pub struct SlotMessage {
    /// Slot version; strictly increasing per slot.
    pub version: u32,
    /// The publisher's signature over the payload digest.
    pub signature: SignatureShare,
    /// The payload itself.
    pub payload: SignerMessage,
}

/// A message verifies against a slot owned by `owner`.
pub open spec fn spec_message_valid(m: SlotMessage, owner: u64) -> bool {
    spec_share_valid(m.signature, owner, spec_message_digest(m.payload))
}

/// Whether a version may follow the last-seen one: the first version is
/// free, every later one must strictly increase.
pub open spec fn version_admissible(last: Option<u32>, v: u32) -> bool {
    match last {
        None => true,
        Some(lv) => v > lv,
    }
}

/// Why a publication was refused.
#[derive(Clone, Copy, Debug, PartialEq, Eq, Structural)]
pub enum PublishError {
    /// The slot id names no slot.
    NoSuchSlot,
    /// The version does not exceed the slot's last-seen version: a replay
    /// or an out-of-date publisher. Refused, never silently dropped.
    StaleVersion,
}

/// One member's append-only slot.
pub struct ChannelSlot {
    /// The key every message on this slot must verify against.
    pub owner_key: u64,
    /// The highest version published so far.
    pub last_version: Option<u32>,
    /// Every message ever admitted, in publication order.
    pub messages: Vec<SlotMessage>,
    /// How many messages the owner of this channel view has already polled.
    pub cursor: usize,
}

/// The verified messages among `msgs[from..]`, in order.
pub open spec fn spec_verified_suffix(msgs: Seq<SlotMessage>, from: int, owner: u64) -> Seq<
    SlotMessage,
>
    decreases msgs.len() - from,
{
    if from < 0 || from >= msgs.len() {
        Seq::empty()
    } else {
        (if spec_message_valid(msgs[from], owner) {
            seq![msgs[from]]
        } else {
            Seq::<SlotMessage>::empty()
        }) + spec_verified_suffix(msgs, from + 1, owner)
    }
}

impl ChannelSlot {
    /// The cursor never passes the end; versions strictly increase along
    /// the slot; the last-seen version is the last message's, and is absent
    /// exactly while the slot is empty.
    pub open spec fn wf(self) -> bool {
        &&& self.cursor <= self.messages@.len()
        &&& forall|p: int, q: int|
            0 <= p < q < self.messages@.len() ==> self.messages@[p].version
                < self.messages@[q].version
        &&& (self.messages@.len() == 0 <==> self.last_version is None)
        &&& self.messages@.len() > 0 ==> self.last_version == Some(
            self.messages@.last().version,
        )
    }

    /// An empty slot owned by `owner`.
    pub fn new(owner: u64) -> (r: ChannelSlot)
        ensures
            r.owner_key == owner,
            r.last_version is None,
            r.messages@ =~= Seq::<SlotMessage>::empty(),
            r.cursor == 0,
            r.wf(),
    {
        ChannelSlot { owner_key: owner, last_version: None, messages: Vec::new(), cursor: 0 }
    }
}

/// The one shared medium among committee members: a slot per member.
pub struct CommitteeChannel {
    /// The slots, indexed by slot id.
    pub slots: Vec<ChannelSlot>,
}

impl CommitteeChannel {
    /// Every slot is well-formed.
    pub open spec fn wf(self) -> bool {
        forall|i: int| 0 <= i < self.slots@.len() ==> self.slots@[i].wf()
    }

    /// A channel with one empty slot per listed owner key, in slot order.
    pub fn new(owners: &Vec<u64>) -> (r: CommitteeChannel)
        ensures
            r.slots@.len() == owners@.len(),
            forall|i: int|
                0 <= i < owners@.len() ==> (#[trigger] r.slots@[i]).owner_key == owners@[i]
                    && r.slots@[i].messages@.len() == 0 && r.slots@[i].cursor == 0,
            r.wf(),
    {
        let mut slots: Vec<ChannelSlot> = Vec::new();
        let n = owners.len();
        let mut i: usize = 0;
        while i < n
            invariant
                n == owners@.len(),
                i <= n,
                slots@.len() == i,
                forall|j: int|
                    0 <= j < i ==> (#[trigger] slots@[j]).owner_key == owners@[j]
                        && slots@[j].messages@.len() == 0 && slots@[j].cursor == 0
                        && slots@[j].wf(),
            decreases n - i,
        {
            slots.push(ChannelSlot::new(owners[i]));
            i = i + 1;
        }
        CommitteeChannel { slots }
    }

    /// Publish a signed message to a slot. The version must strictly exceed
    /// the slot's last-seen version; a replayed or stale version is refused
    /// and the channel's visible state is unchanged.
    pub fn publish(&mut self, slot_id: usize, msg: SlotMessage) -> (r: Result<(), PublishError>)
        requires
            old(self).wf(),
        ensures
            final(self).wf(),
            final(self).slots@.len() == old(self).slots@.len(),
            slot_id >= old(self).slots@.len() ==> r == Err::<(), PublishError>(
                PublishError::NoSuchSlot,
            ) && final(self).slots@ == old(self).slots@,
            slot_id < old(self).slots@.len() && !version_admissible(
                old(self).slots@[slot_id as int].last_version,
                msg.version,
            ) ==> r == Err::<(), PublishError>(PublishError::StaleVersion) && final(self).slots@
                == old(self).slots@,
            slot_id < old(self).slots@.len() && version_admissible(
                old(self).slots@[slot_id as int].last_version,
                msg.version,
            ) ==> {
                &&& r == Ok::<(), PublishError>(())
                &&& final(self).slots@[slot_id as int].messages@ == old(
                    self,
                ).slots@[slot_id as int].messages@.push(msg)
                &&& final(self).slots@[slot_id as int].last_version == Some(msg.version)
                &&& final(self).slots@[slot_id as int].owner_key == old(
                    self,
                ).slots@[slot_id as int].owner_key
                &&& final(self).slots@[slot_id as int].cursor == old(
                    self,
                ).slots@[slot_id as int].cursor
                &&& forall|j: int|
                    0 <= j < old(self).slots@.len() && j != slot_id ==> final(self).slots@[j]
                        == old(self).slots@[j]
            },
    {
        if slot_id >= self.slots.len() {
            return Err(PublishError::NoSuchSlot);
        }
        let admissible = match self.slots[slot_id].last_version {
            None => true,
            Some(lv) => msg.version > lv,
        };
        if !admissible {
            return Err(PublishError::StaleVersion);
        }
        let ghost pre = self.slots@;
        let slot = &mut self.slots[slot_id];
        let ghost pre_msgs = slot.messages@;
        slot.messages.push(msg);
        slot.last_version = Some(msg.version);
        proof {
            let post = self.slots@[slot_id as int];
            assert(post.messages@ =~= pre_msgs.push(msg));
            assert forall|p: int, q: int|
                0 <= p < q < post.messages@.len() implies post.messages@[p].version
                < post.messages@[q].version by {
                if q < pre_msgs.len() {
                } else {
                    assert(post.messages@[q] == msg);
                    if pre_msgs.len() > 0 && p < pre_msgs.len() {
                        if p < pre_msgs.len() - 1 {
                            assert(pre_msgs[p].version < pre_msgs[pre_msgs.len() - 1].version);
                        }
                    }
                }
            }
        }
        Ok(())
    }

    /// Poll one slot: surface the messages published since the last poll
    /// whose signatures verify against the slot owner's key, in version
    /// order, and remember where polling stopped. An unverifiable message is
    /// dropped, never delivered.
    pub fn poll_slot(&mut self, slot_id: usize) -> (r: Vec<SlotMessage>)
        requires
            old(self).wf(),
            slot_id < old(self).slots@.len(),
        ensures
            final(self).wf(),
            final(self).slots@.len() == old(self).slots@.len(),
            r@ == spec_verified_suffix(
                old(self).slots@[slot_id as int].messages@,
                old(self).slots@[slot_id as int].cursor as int,
                old(self).slots@[slot_id as int].owner_key,
            ),
            final(self).slots@[slot_id as int].cursor == old(
                self,
            ).slots@[slot_id as int].messages@.len(),
            final(self).slots@[slot_id as int].messages@ == old(
                self,
            ).slots@[slot_id as int].messages@,
            final(self).slots@[slot_id as int].owner_key == old(
                self,
            ).slots@[slot_id as int].owner_key,
            final(self).slots@[slot_id as int].last_version == old(
                self,
            ).slots@[slot_id as int].last_version,
            forall|j: int|
                0 <= j < old(self).slots@.len() && j != slot_id ==> final(self).slots@[j] == old(
                    self,
                ).slots@[j],
    {
        let slot = &self.slots[slot_id];
        let owner = slot.owner_key;
        let n = slot.messages.len();
        let ghost msgs = slot.messages@;
        let ghost c0 = slot.cursor as int;
        let mut out: Vec<SlotMessage> = Vec::new();
        let mut i: usize = slot.cursor;
        while i < n
            invariant
                self.wf(),
                slot_id < self.slots@.len(),
                msgs == self.slots@[slot_id as int].messages@,
                owner == self.slots@[slot_id as int].owner_key,
                n == msgs.len(),
                c0 <= i <= n,
                spec_verified_suffix(msgs, c0, owner) == out@ + spec_verified_suffix(
                    msgs,
                    i as int,
                    owner,
                ),
            decreases n - i,
        {
            let m = self.slots[slot_id].messages[i];
            let d = message_digest(&m.payload);
            let ghost before = out@;
            if verify_share(&m.signature, owner, d) {
                out.push(m);
                proof {
                    assert(spec_verified_suffix(msgs, i as int, owner) =~= seq![msgs[i as int]]
                        + spec_verified_suffix(msgs, i as int + 1, owner));
                    assert(before + spec_verified_suffix(msgs, i as int, owner) =~= out@
                        + spec_verified_suffix(msgs, i as int + 1, owner));
                }
            } else {
                proof {
                    assert(spec_verified_suffix(msgs, i as int, owner) =~= spec_verified_suffix(
                        msgs,
                        i as int + 1,
                        owner,
                    ));
                }
            }
            i = i + 1;
        }
        let slot = &mut self.slots[slot_id];
        slot.cursor = n;
        proof {
            assert(spec_verified_suffix(msgs, n as int, owner) =~= Seq::<SlotMessage>::empty());
            assert(out@ =~= out@ + Seq::<SlotMessage>::empty());
        }
        out
    }
}

/// Replay protection: once a version has been admitted to a slot, no version
/// less than or equal to it is ever admissible there again. Together with
/// `CommitteeChannel::publish`, which leaves the channel unchanged on a
/// stale version, publishing a high version and then a lower one to the same
/// slot refuses the second and keeps the visible state of the first.
pub proof fn lemma_replay_protected(last: Option<u32>, v1: u32, v2: u32)
    requires
        version_admissible(last, v1),
        v2 <= v1,
    ensures
        !version_admissible(Some(v1), v2),
{
}

} // verus!
