//! The leader-side response aggregator: weighted committee membership, and
//! the accumulation of valid acceptance signatures for one candidate digest
//! until the super-majority weight threshold is reached.

use vstd::prelude::*;

use crate::evaluator::{spec_share_valid, verify_share, SignatureShare};

verus! {

/// One committee member: key, stake-derived weight, and channel slot.
#[derive(Clone, Copy, Debug, PartialEq, Eq, Structural)]
pub struct CommitteeMember {
    /// The member's public key.
    pub public_key: u64,
    /// The member's stake-derived voting weight.
    pub weight: u64,
    /// The channel slot assigned to the member for this cycle.
    pub assigned_slot: u32,
}

/// The weight of the member with key `key` among `s[i..]`, if one is there.
pub open spec fn weight_from(s: Seq<CommitteeMember>, i: int, key: u64) -> Option<u64>
    decreases s.len() - i,
{
    if i < 0 || i >= s.len() {
        None
    } else if s[i].public_key == key {
        Some(s[i].weight)
    } else {
        weight_from(s, i + 1, key)
    }
}

/// The weight of the member with key `key`, if `key` is a member.
pub open spec fn spec_member_weight(s: Seq<CommitteeMember>, key: u64) -> Option<u64> {
    weight_from(s, 0, key)
}

/// The total weight of the members `s[i..]`.
pub open spec fn sum_weights_from(s: Seq<CommitteeMember>, i: int) -> int
    decreases s.len() - i,
{
    if i < 0 || i >= s.len() {
        0
    } else {
        s[i].weight + sum_weights_from(s, i + 1)
    }
}

/// The total weight of the whole committee.
pub open spec fn spec_total_weight(s: Seq<CommitteeMember>) -> int {
    sum_weights_from(s, 0)
}

/// Weights are non-negative, so a tail of the sum never exceeds the sum
/// from an earlier point.
pub proof fn lemma_sum_weights_suffix(s: Seq<CommitteeMember>, i: int, j: int)
    requires
        0 <= i <= j,
    ensures
        sum_weights_from(s, j) <= sum_weights_from(s, i),
    decreases j - i,
{
    if i < j {
        lemma_sum_weights_suffix(s, i + 1, j);
    }
}

/// The committee of one reward cycle: an immutable weighted member set.
pub struct Committee {
    /// The reward cycle this committee serves.
    pub reward_cycle: u64,
    /// The members, in slot order.
    pub members: Vec<CommitteeMember>,
}

impl Committee {
    /// Keys are pairwise distinct and the total weight fits in a `u64`.
    pub open spec fn wf(self) -> bool {
        &&& forall|p: int, q: int|
            0 <= p < q < self.members@.len() ==> self.members@[p].public_key
                != self.members@[q].public_key
        &&& spec_total_weight(self.members@) <= u64::MAX
    }

    /// The weight of the member with key `key`, if `key` is a member.
    pub fn member_weight(&self, key: u64) -> (r: Option<u64>)
        ensures
            r == spec_member_weight(self.members@, key),
    {
        self.weight_lookup_from(0, key)
    }

    /// Walk the member list from position `i` looking for `key`.
    fn weight_lookup_from(&self, i: usize, key: u64) -> (r: Option<u64>)
        requires
            i <= self.members@.len(),
        ensures
            r == weight_from(self.members@, i as int, key),
        decreases self.members@.len() - i,
    {
        if i >= self.members.len() {
            None
        } else if self.members[i].public_key == key {
            Some(self.members[i].weight)
        } else {
            self.weight_lookup_from(i + 1, key)
        }
    }

    /// The total committee weight.
    pub fn total_weight(&self) -> (r: u64)
        requires
            self.wf(),
        ensures
            r == spec_total_weight(self.members@),
    {
        let n = self.members.len();
        let mut i: usize = n;
        let mut acc: u64 = 0;
        while i > 0
            invariant
                self.wf(),
                n == self.members@.len(),
                i <= n,
                acc == sum_weights_from(self.members@, i as int),
            decreases i,
        {
            proof {
                lemma_sum_weights_suffix(self.members@, i - 1, i as int);
                lemma_sum_weights_suffix(self.members@, 0, i - 1);
            }
            i = i - 1;
            acc = acc + self.members[i].weight;
        }
        acc
    }
}

/// The super-majority rule: accepted weight reaches at least 70% of the
/// total committee weight.
pub open spec fn spec_threshold(accepted: int, total: int) -> bool {
    10 * accepted >= 7 * total
}

/// What admitting one acceptance did.
#[derive(Clone, Copy, Debug, PartialEq, Eq, Structural)]
pub enum AddOutcome {
    /// The share was valid and fresh; its member's weight now counts.
    Counted(u64),
    /// The claimed key is not a member of this committee; the share is
    /// discarded, never deprioritized.
    NotMember,
    /// The share does not verify against the claimed key over the digest.
    BadSignature,
    /// The member's weight was already counted for this digest.
    Duplicate,
}

/// True when `key` is among the counted pairs `s[i..]`.
pub open spec fn counted_from(s: Seq<(u64, u64)>, i: int, key: u64) -> bool
    decreases s.len() - i,
{
    if i < 0 || i >= s.len() {
        false
    } else if s[i].0 == key {
        true
    } else {
        counted_from(s, i + 1, key)
    }
}

/// The aggregation transition for one claimed acceptance: verify the share
/// over the digest, require committee membership for the current cycle,
/// refuse double counting, and otherwise add the member's weight.
pub open spec fn spec_add_acceptance(
    members: Seq<CommitteeMember>,
    sighash: u64,
    counted: Seq<(u64, u64)>,
    accepted: int,
    key: u64,
    share: SignatureShare,
) -> (AddOutcome, Seq<(u64, u64)>, int) {
    if !spec_share_valid(share, key, sighash) {
        (AddOutcome::BadSignature, counted, accepted)
    } else {
        match spec_member_weight(members, key) {
            None => (AddOutcome::NotMember, counted, accepted),
            Some(w) => {
                if counted_from(counted, 0, key) {
                    (AddOutcome::Duplicate, counted, accepted)
                } else {
                    (AddOutcome::Counted(w), counted.push((key, w)), accepted + w)
                }
            },
        }
    }
}

/// Collects signed acceptances for one candidate digest and declares the
/// block signed once the counted weight reaches the threshold.
pub struct ResponseAggregator {
    /// The committee of the candidate's reward cycle.
    pub committee: Committee,
    /// The digest being signed.
    pub signature_hash: u64,
    /// The members counted so far, with the weight each contributed.
    pub counted: Vec<(u64, u64)>,
    /// The accumulated accepted weight.
    pub accepted_weight: u128,
}

impl ResponseAggregator {
    /// The members counted so far, with the weight each contributed.
    pub open spec fn counted_view(self) -> Seq<(u64, u64)> {
        self.counted@
    }

    /// The accumulated accepted weight.
    pub open spec fn spec_accepted_weight(self) -> int {
        self.accepted_weight as int
    }

    /// The accumulated weight is bounded by the number of counted members,
    /// each of whom contributed at most a full `u64` weight.
    pub open spec fn wf(self) -> bool {
        self.spec_accepted_weight() <= self.counted_view().len() * (u64::MAX as int)
    }

    /// A fresh aggregator for one digest.
    pub fn new(committee: Committee, signature_hash: u64) -> (r: ResponseAggregator)
        ensures
            r.committee == committee,
            r.signature_hash == signature_hash,
            r.counted_view() =~= Seq::<(u64, u64)>::empty(),
            r.spec_accepted_weight() == 0,
            r.wf(),
    {
        ResponseAggregator { committee, signature_hash, counted: Vec::new(), accepted_weight: 0 }
    }

    /// The accumulated accepted weight.
    pub fn accepted_weight(&self) -> (r: u128)
        ensures
            r == self.spec_accepted_weight(),
    {
        self.accepted_weight
    }

    /// Admit one claimed acceptance: `key` says it signed this aggregator's
    /// digest with `share`.
    pub fn add_acceptance(&mut self, key: u64, share: SignatureShare) -> (r: AddOutcome)
        requires
            old(self).wf(),
        ensures
            final(self).wf(),
            final(self).committee == old(self).committee,
            final(self).signature_hash == old(self).signature_hash,
            (r, final(self).counted_view(), final(self).spec_accepted_weight())
                == spec_add_acceptance(
                old(self).committee.members@,
                old(self).signature_hash,
                old(self).counted_view(),
                old(self).spec_accepted_weight(),
                key,
                share,
            ),
    {
        if !verify_share(&share, key, self.signature_hash) {
            return AddOutcome::BadSignature;
        }
        match self.committee.member_weight(key) {
            None => AddOutcome::NotMember,
            Some(w) => {
                if self.already_counted_from(0, key) {
                    AddOutcome::Duplicate
                } else {
                    let ghost pre = self.counted@;
                    let cl = self.counted.len();
                    proof {
                        assert(pre.len() == cl);
                        assert(cl as int <= usize::MAX as int);
                        assert(usize::MAX as int <= 0xFFFFFFFFFFFFFFFFint);
                        assert(self.accepted_weight as int + w <= (pre.len() + 1) * (
                        u64::MAX as int)) by (nonlinear_arith)
                            requires
                                self.accepted_weight as int <= pre.len() * (u64::MAX as int),
                                w <= u64::MAX,
                        ;
                        assert((cl as int + 1) * (u64::MAX as int) < u128::MAX) by (nonlinear_arith)
                            requires
                                cl as int <= 0xFFFFFFFFFFFFFFFF,
                        ;
                    }
                    self.accepted_weight = self.accepted_weight + (w as u128);
                    self.counted.push((key, w));
                    proof {
                        assert(self.counted@ =~= pre.push((key, w)));
                    }
                    AddOutcome::Counted(w)
                }
            },
        }
    }

    /// Walk the counted list from position `i` looking for `key`.
    fn already_counted_from(&self, i: usize, key: u64) -> (r: bool)
        requires
            i <= self.counted@.len(),
        ensures
            r == counted_from(self.counted@, i as int, key),
        decreases self.counted@.len() - i,
    {
        if i >= self.counted.len() {
            false
        } else if self.counted[i].0 == key {
            true
        } else {
            self.already_counted_from(i + 1, key)
        }
    }

    /// Whether the counted weight has reached the super-majority threshold.
    /// A block may finalize with fewer than all members responding.
    pub fn is_threshold_met(&self) -> (r: bool)
        requires
            self.committee.wf(),
        ensures
            r == spec_threshold(
                self.spec_accepted_weight(),
                spec_total_weight(self.committee.members@),
            ),
    {
        let total = self.committee.total_weight();
        if self.accepted_weight >= total as u128 {
            return true;
        }
        self.accepted_weight * 10 >= (total as u128) * 7
    }
}

/// Liveness under partial participation: once the counted acceptance weight
/// reaches 70% of the committee's total weight, the threshold is met,
/// whatever weight belongs to members who never responded. The judgment
/// reads nothing but the counted weight and the total.
pub proof fn lemma_partial_participation(accepted: int, total: int)
    requires
        10 * accepted >= 7 * total,
    ensures
        spec_threshold(accepted, total),
{
}

/// More acceptances never undo the threshold: the rule is monotone in the
/// counted weight.
pub proof fn lemma_threshold_monotone(a1: int, a2: int, total: int)
    requires
        a1 <= a2,
        spec_threshold(a1, total),
    ensures
        spec_threshold(a2, total),
{
}

/// Stale-committee exclusion: a share from a key that is not a member of
/// this cycle's committee is discarded outright; it contributes no weight
/// and leaves the aggregator unchanged, however valid the share is.
pub proof fn lemma_stale_signer_excluded(
    members: Seq<CommitteeMember>,
    sighash: u64,
    counted: Seq<(u64, u64)>,
    accepted: int,
    key: u64,
    share: SignatureShare,
)
    requires
        spec_member_weight(members, key) is None,
        spec_share_valid(share, key, sighash),
    ensures
        spec_add_acceptance(members, sighash, counted, accepted, key, share) == (
            AddOutcome::NotMember,
            counted,
            accepted,
        ),
{
}

} // verus!
