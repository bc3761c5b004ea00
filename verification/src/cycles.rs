//! Reward-cycle rollover: which cycle a burn height belongs to, the
//! deterministic committee computation each member derives on its own, the
//! per-cycle lifecycle, and which committee a block at a given height must
//! verify against.

use vstd::prelude::*;

use crate::aggregator::{spec_member_weight, spec_total_weight, sum_weights_from, Committee,
    CommitteeMember};
use crate::channel::SignerMessage;
use crate::evaluator::SignatureShare;

verus! {

/// The reward cycle a burn height belongs to, when the schedule is sound
/// (a positive cycle length and a height at or past the first cycle start).
pub fn reward_cycle_of(burn_height: u64, first_height: u64, cycle_len: u64) -> (r: Option<u64>)
    ensures
        cycle_len > 0 && burn_height >= first_height ==> r == Some(
            ((burn_height - first_height) as u64 / cycle_len) as u64,
        ),
        cycle_len == 0 || burn_height < first_height ==> r is None,
{
    if cycle_len == 0 || burn_height < first_height {
        None
    } else {
        Some((burn_height - first_height) / cycle_len)
    }
}

/// True when the registration keys `regs[p].0` are pairwise distinct.
pub open spec fn regs_unique(regs: Seq<(u64, u64)>) -> bool {
    forall|p: int, q: int| 0 <= p < q < regs.len() ==> regs[p].0 != regs[q].0
}

/// The total weight registered in `regs[i..]`.
pub open spec fn regs_weight_from(regs: Seq<(u64, u64)>, i: int) -> int
    decreases regs.len() - i,
{
    if i < 0 || i >= regs.len() {
        0
    } else {
        regs[i].1 + regs_weight_from(regs, i + 1)
    }
}

/// Registered weight counted from later is never more than from earlier.
proof fn lemma_regs_weight_suffix(regs: Seq<(u64, u64)>, i: int, j: int)
    requires
        0 <= i <= j,
    ensures
        regs_weight_from(regs, j) <= regs_weight_from(regs, i),
    decreases j - i,
{
    if i < j {
        lemma_regs_weight_suffix(regs, i + 1, j);
    }
}

/// Derive the committee of a reward cycle from the stake-weighted
/// registrations observed on the anchor chain: a pure function of its
/// inputs, computed once at the prepare-phase boundary, identically by every
/// member, with no negotiation. Members take the slot matching their
/// position in the registration list. Fails only when a key registers twice
/// or the total weight overflows the weight type.
pub fn compute_committee(reward_cycle: u64, regs: &Vec<(u64, u64)>) -> (r: Option<Committee>)
    requires
        regs@.len() <= u32::MAX,
    ensures
        match r {
            Some(c) => {
                &&& regs_unique(regs@)
                &&& regs_weight_from(regs@, 0) <= u64::MAX
                &&& c.reward_cycle == reward_cycle
                &&& c.members@.len() == regs@.len()
                &&& forall|i: int|
                    0 <= i < regs@.len() ==> (#[trigger] c.members@[i]) == (CommitteeMember {
                        public_key: regs@[i].0,
                        weight: regs@[i].1,
                        assigned_slot: i as u32,
                    })
                &&& c.wf()
            },
            None => !regs_unique(regs@) || regs_weight_from(regs@, 0) > u64::MAX,
        },
{
    let n = regs.len();

    // refuse a key that registers twice
    let mut i: usize = 0;
    while i < n
        invariant
            n == regs@.len(),
            i <= n,
            forall|p: int, q: int| 0 <= p < q < regs@.len() && p < i ==> regs@[p].0 != regs@[q].0,
        decreases n - i,
    {
        let mut j: usize = i + 1;
        while j < n
            invariant
                n == regs@.len(),
                i < j <= n,
                forall|q: int| i < q < j ==> regs@[i as int].0 != regs@[q].0,
            decreases n - j,
        {
            if regs[i].0 == regs[j].0 {
                return None;
            }
            j = j + 1;
        }
        i = i + 1;
    }

    // refuse a total weight that overflows, and build the member list
    let mut members: Vec<CommitteeMember> = Vec::new();
    let mut total: u64 = 0;
    let mut k: usize = n;
    // sum from the back so the running value matches the suffix sum
    while k > 0
        invariant
            n == regs@.len(),
            k <= n,
            total == regs_weight_from(regs@, k as int),
        decreases k,
    {
        k = k - 1;
        let w = regs[k].1;
        if total > u64::MAX - w {
            proof {
                lemma_regs_weight_suffix(regs@, 0, k as int);
            }
            return None;
        }
        total = total + w;
    }

    let mut idx: usize = 0;
    while idx < n
        invariant
            n == regs@.len(),
            n <= u32::MAX,
            idx <= n,
            members@.len() == idx,
            forall|i2: int|
                0 <= i2 < idx ==> (#[trigger] members@[i2]) == (CommitteeMember {
                    public_key: regs@[i2].0,
                    weight: regs@[i2].1,
                    assigned_slot: i2 as u32,
                }),
        decreases n - idx,
    {
        members.push(
            CommitteeMember {
                public_key: regs[idx].0,
                weight: regs[idx].1,
                assigned_slot: idx as u32,
            },
        );
        idx = idx + 1;
    }

    let c = Committee { reward_cycle, members };
    proof {
        lemma_committee_weight_matches_regs(c.members@, regs@, 0);
    }
    Some(c)
}

/// The committee built from a registration list carries the same suffix
/// sums of weight as the list itself.
proof fn lemma_committee_weight_matches_regs(ms: Seq<CommitteeMember>, regs: Seq<(u64, u64)>, i: int)
    requires
        ms.len() == regs.len(),
        0 <= i,
        forall|p: int| 0 <= p < regs.len() ==> (#[trigger] ms[p]).weight == regs[p].1,
    ensures
        sum_weights_from(ms, i) == regs_weight_from(regs, i),
    decreases ms.len() - i,
{
    if i < ms.len() {
        lemma_committee_weight_matches_regs(ms, regs, i + 1);
    }
}

/// The lifecycle of one reward cycle as a member sees it.
#[derive(Clone, Copy, Debug, PartialEq, Eq, Structural)]
pub enum CycleState {
    /// The cycle's first burn height is still ahead.
    Future,
    /// The prepare phase has begun; membership is being derived.
    Computing,
    /// Membership is fixed; the member signs for this cycle.
    Active,
    /// A later cycle has begun; the member must no longer sign for this
    /// cycle's slot, whatever its role in the new cycle.
    Retired,
}

/// One reward cycle's state at one member.
pub struct RewardCycleManager {
    /// The cycle this manager tracks.
    pub cycle: u64,
    /// Where the cycle stands.
    pub state: CycleState,
    /// The committee, fixed once the cycle is active.
    pub committee: Option<Committee>,
}

impl RewardCycleManager {
    /// A manager for a cycle still ahead.
    pub fn new(cycle: u64) -> (r: RewardCycleManager)
        ensures
            r.cycle == cycle,
            r.state == CycleState::Future,
            r.committee is None,
    {
        RewardCycleManager { cycle, state: CycleState::Future, committee: None }
    }

    /// The prepare-phase boundary was reached: membership derivation begins.
    pub fn begin_computing(&mut self)
        requires
            old(self).state == CycleState::Future,
        ensures
            final(self).state == CycleState::Computing,
            final(self).cycle == old(self).cycle,
            final(self).committee == old(self).committee,
    {
        self.state = CycleState::Computing;
    }

    /// Membership was derived: the cycle becomes active and its committee is
    /// immutable from here on.
    pub fn activate(&mut self, committee: Committee)
        requires
            old(self).state == CycleState::Computing,
            committee.reward_cycle == old(self).cycle,
        ensures
            final(self).state == CycleState::Active,
            final(self).cycle == old(self).cycle,
            final(self).committee == Some(committee),
    {
        self.committee = Some(committee);
        self.state = CycleState::Active;
    }

    /// A burn height was observed. The cycle retires exactly when the height
    /// belongs to a later cycle; retirement is strict and final.
    pub fn observe_burn_height(&mut self, burn_height: u64, first_height: u64, cycle_len: u64)
        requires
            old(self).state == CycleState::Active,
        ensures
            final(self).cycle == old(self).cycle,
            final(self).committee == old(self).committee,
            ({
                let observed = if cycle_len > 0 && burn_height >= first_height {
                    Some(((burn_height - first_height) as u64 / cycle_len) as u64)
                } else {
                    None::<u64>
                };
                match observed {
                    Some(rc) => final(self).state == (if rc > old(self).cycle {
                        CycleState::Retired
                    } else {
                        CycleState::Active
                    }),
                    None => final(self).state == CycleState::Active,
                }
            }),
    {
        match reward_cycle_of(burn_height, first_height, cycle_len) {
            Some(rc) => {
                if rc > self.cycle {
                    self.state = CycleState::Retired;
                }
            },
            None => {},
        }
    }

    /// A member signs only while its cycle is active: never before the
    /// committee is fixed, and never after the cycle retires, even if it is
    /// also a member of the new cycle.
    pub fn may_sign(&self) -> (r: bool)
        ensures
            r == (self.state == CycleState::Active),
    {
        match self.state {
            CycleState::Active => true,
            _ => false,
        }
    }

    /// Answer an operator's status request on the member's own slot.
    pub fn status_response(&self) -> (r: SignerMessage)
        ensures
            r == (SignerMessage::StatusResponse {
                reward_cycle: self.cycle,
                active: self.state == CycleState::Active,
            }),
    {
        SignerMessage::StatusResponse { reward_cycle: self.cycle, active: self.may_sign() }
    }
}

/// The committee a block at a burn height must verify against: the old one
/// strictly below the boundary, the new one at the boundary and above.
pub open spec fn spec_committee_for_height<'a>(
    old_committee: &'a Committee,
    new_committee: &'a Committee,
    boundary: u64,
    burn_height: u64,
) -> &'a Committee {
    if burn_height < boundary {
        old_committee
    } else {
        new_committee
    }
}

/// Select the committee a block at `burn_height` verifies against.
pub fn committee_for_height<'a>(
    old_committee: &'a Committee,
    new_committee: &'a Committee,
    boundary: u64,
    burn_height: u64,
) -> (r: &'a Committee)
    ensures
        r == spec_committee_for_height(old_committee, new_committee, boundary, burn_height),
{
    if burn_height < boundary {
        old_committee
    } else {
        new_committee
    }
}

/// A committee accepts a share over a block digest when the share's key is
/// a member and the share covers exactly that digest.
pub open spec fn spec_committee_accepts(
    members: Seq<CommitteeMember>,
    share: SignatureShare,
    block_hash: u64,
) -> bool {
    spec_member_weight(members, share.signer_key) is Some && share.message_hash == block_hash
}

/// Check a share over a block digest against a committee.
pub fn committee_accepts(c: &Committee, share: &SignatureShare, block_hash: u64) -> (r: bool)
    ensures
        r == spec_committee_accepts(c.members@, *share, block_hash),
{
    c.member_weight(share.signer_key).is_some() && share.message_hash == block_hash
}

/// Rollover separation: when the outgoing and incoming committees share no
/// key, a share by an old member verifies only against the old committee,
/// and a share by a new member only against the new one. With
/// `committee_for_height`, a block below the boundary therefore verifies
/// only against old keys and a block at or above it only against new keys.
pub proof fn lemma_rollover_key_separation(
    old_members: Seq<CommitteeMember>,
    new_members: Seq<CommitteeMember>,
    share: SignatureShare,
    block_hash: u64,
)
    requires
        forall|k: u64|
            spec_member_weight(old_members, k) is Some ==> spec_member_weight(new_members, k)
                is None,
    ensures
        spec_committee_accepts(old_members, share, block_hash) ==> !spec_committee_accepts(
            new_members,
            share,
            block_hash,
        ),
        spec_committee_accepts(new_members, share, block_hash) ==> !spec_committee_accepts(
            old_members,
            share,
            block_hash,
        ),
{
}

} // verus!
