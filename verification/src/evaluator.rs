//! The proposal evaluator: the accept/reject state machine run once per
//! incoming block candidate. The consensus-hash check and the structural
//! check are decided locally; content validation is delegated to the
//! validation oracle, and the evaluator only records the verdict. Decisions
//! are cached by signature hash so that re-delivery is idempotent.

use vstd::prelude::*;

use crate::sortition::{ProposalEvalConfig, SortitionView};

verus! {

/// Why a candidate was rejected.
#[derive(Clone, Copy, Debug, PartialEq, Eq, Structural)]
pub enum RejectCode {
    /// The claimed consensus hash matches no tolerated sortition snapshot.
    SortitionViewMismatch,
    /// Structural validation failed before the oracle was consulted.
    MalformedProposal,
    /// The validation oracle rejected the candidate's content, with its
    /// detail code.
    ValidationFailed(u32),
    /// No decision was reached before the leader's deadline.
    Timeout,
}

/// A block candidate as the evaluator sees it: the canonical digest that
/// gets signed, the sortition it claims, its parent linkage, the length of
/// its member-inclusion bit vector, and the tenure-extension flag.
#[derive(Clone, Copy, Debug, PartialEq, Eq, Structural)]
pub struct BlockCandidate {
    /// The canonical digest of the candidate; what members sign.
    pub signature_hash: u64,
    /// Consensus hash of the sortition the candidate claims.
    pub consensus_hash: u64,
    /// The parent block the candidate claims to extend.
    pub parent_block: u64,
    /// Length of the member-inclusion bit vector carried by the candidate.
    pub treatment_len: u64,
    /// True when the leader asks to keep proposing under the prior
    /// sortition.
    pub is_tenure_extend: bool,
}

/// An idealized signature share: the signer's key and the digest it signed.
#[derive(Clone, Copy, Debug, PartialEq, Eq, Structural)]
pub struct SignatureShare {
    /// The member key that produced the share.
    pub signer_key: u64,
    /// The digest the share covers.
    pub message_hash: u64,
}

/// What signing a digest with a key yields.
pub open spec fn spec_sign(key: u64, h: u64) -> SignatureShare {
    SignatureShare { signer_key: key, message_hash: h }
}

/// Sign a digest with a member key.
pub fn sign_hash(key: u64, h: u64) -> (r: SignatureShare)
    ensures
        r == spec_sign(key, h),
{
    SignatureShare { signer_key: key, message_hash: h }
}

/// Whether a share is a valid signature by `key` over `h`.
pub open spec fn spec_share_valid(s: SignatureShare, key: u64, h: u64) -> bool {
    s.signer_key == key && s.message_hash == h
}

/// Check a share against a claimed key and digest.
pub fn verify_share(s: &SignatureShare, key: u64, h: u64) -> (r: bool)
    ensures
        r == spec_share_valid(*s, key, h),
{
    s.signer_key == key && s.message_hash == h
}

/// A member's signed verdict on one candidate. Every response references
/// exactly one signature hash.
#[derive(Clone, Copy, Debug, PartialEq, Eq, Structural)]
pub enum CommitteeResponse {
    /// The member vouches for the candidate.
    Accepted {
        /// The digest the verdict is about.
        signature_hash: u64,
        /// The member's signature over that digest.
        signature: SignatureShare,
    },
    /// The member refuses the candidate, with the reason.
    Rejected {
        /// Why the candidate was refused.
        reason: RejectCode,
        /// The digest the verdict is about.
        signature_hash: u64,
        /// The member's signature over that digest.
        signature: SignatureShare,
    },
}

impl CommitteeResponse {
    /// The one signature hash this response references.
    pub open spec fn spec_signature_hash(self) -> u64 {
        match self {
            CommitteeResponse::Accepted { signature_hash, .. } => signature_hash,
            CommitteeResponse::Rejected { signature_hash, .. } => signature_hash,
        }
    }

    /// The one signature hash this response references.
    pub fn signature_hash(&self) -> (r: u64)
        ensures
            r == self.spec_signature_hash(),
    {
        match self {
            CommitteeResponse::Accepted { signature_hash, .. } => *signature_hash,
            CommitteeResponse::Rejected { signature_hash, .. } => *signature_hash,
        }
    }
}

/// Everything the consensus and structural checks read, beyond the
/// candidate itself.
#[derive(Clone, Copy, Debug, PartialEq, Eq, Structural)]
pub struct EvalContext {
    /// The tracker's current and prior sortition snapshots.
    pub view: SortitionView,
    /// Evaluation tuning.
    pub config: ProposalEvalConfig,
    /// Wall-clock second of the evaluation.
    pub now: u64,
    /// True when no proposal for the current tenure was seen before this
    /// one.
    pub is_first_proposal: bool,
    /// True when the current tenure has timed out (see
    /// `SortitionView::is_timed_out`).
    pub tenure_timed_out: bool,
    /// Number of members in the candidate's committee.
    pub committee_size: u64,
    /// The chain tip a well-formed candidate must extend.
    pub expected_parent: u64,
    /// This member's own signing key.
    pub signer_key: u64,
}

/// The consensus-hash tolerance rule. A candidate passes when it references
/// the current sortition; when it is the tenure's first proposal, references
/// the prior sortition, and arrives strictly within the grace window; or
/// when it is a tenure-extension referencing the prior sortition while the
/// current sortition is empty or its leader has timed out.
pub open spec fn spec_consensus_ok(c: BlockCandidate, ctx: EvalContext) -> bool {
    ||| c.consensus_hash == ctx.view.current.consensus_hash
    ||| (!c.is_tenure_extend && c.consensus_hash == ctx.view.last.consensus_hash
        && ctx.is_first_proposal && (ctx.now as int) < ctx.view.current.observed_at
        + ctx.config.first_proposal_burn_block_timing)
    ||| (c.is_tenure_extend && c.consensus_hash == ctx.view.last.consensus_hash
        && (ctx.view.current.is_empty || ctx.tenure_timed_out))
}

/// Check the consensus-hash tolerance rule.
pub fn consensus_ok(c: &BlockCandidate, ctx: &EvalContext) -> (r: bool)
    ensures
        r == spec_consensus_ok(*c, *ctx),
{
    if c.consensus_hash == ctx.view.current.consensus_hash {
        return true;
    }
    if c.consensus_hash != ctx.view.last.consensus_hash {
        return false;
    }
    if c.is_tenure_extend {
        ctx.view.current.is_empty || ctx.tenure_timed_out
    } else {
        ctx.is_first_proposal && (ctx.now as u128) < (ctx.view.current.observed_at as u128) + (
        ctx.config.first_proposal_burn_block_timing as u128)
    }
}

/// The cheap local checks made before the oracle call: the inclusion bit
/// vector covers the committee, and the candidate extends the expected
/// parent.
pub open spec fn spec_structure_ok(c: BlockCandidate, ctx: EvalContext) -> bool {
    c.treatment_len == ctx.committee_size && c.parent_block == ctx.expected_parent
}

/// Check the structural rule.
pub fn structure_ok(c: &BlockCandidate, ctx: &EvalContext) -> (r: bool)
    ensures
        r == spec_structure_ok(*c, *ctx),
{
    c.treatment_len == ctx.committee_size && c.parent_block == ctx.expected_parent
}

/// The signed rejection this member emits for a candidate digest.
pub open spec fn spec_rejection(reason: RejectCode, h: u64, key: u64) -> CommitteeResponse {
    CommitteeResponse::Rejected { reason, signature_hash: h, signature: spec_sign(key, h) }
}

/// The signed acceptance this member emits for a candidate digest.
pub open spec fn spec_acceptance(h: u64, key: u64) -> CommitteeResponse {
    CommitteeResponse::Accepted { signature_hash: h, signature: spec_sign(key, h) }
}

/// A stored decision list at the spec level: digest/response pairs in the
/// order they were decided.
pub type DecisionSeq = Seq<(u64, CommitteeResponse)>;

/// The first stored decision for digest `h`, if any.
pub open spec fn decisions_get(s: DecisionSeq, h: u64) -> Option<CommitteeResponse>
    decreases s.len(),
{
    if s.len() == 0 {
        None
    } else if s[0].0 == h {
        Some(s[0].1)
    } else {
        decisions_get(s.drop_first(), h)
    }
}

/// Lookup after appending a decision: an existing decision wins; a fresh
/// digest finds the new one.
pub proof fn lemma_decisions_get_push(s: DecisionSeq, h: u64, d: CommitteeResponse, q: u64)
    ensures
        decisions_get(s.push((h, d)), q) == (if decisions_get(s, q) is Some {
            decisions_get(s, q)
        } else if q == h {
            Some(d)
        } else {
            None::<CommitteeResponse>
        }),
    decreases s.len(),
{
    if s.len() == 0 {
        assert(s.push((h, d)).drop_first() =~= Seq::<(u64, CommitteeResponse)>::empty());
        assert(s.push((h, d))[0] == (h, d));
        assert(decisions_get(Seq::<(u64, CommitteeResponse)>::empty(), q) is None);
    } else {
        assert(s.push((h, d)).drop_first() =~= s.drop_first().push((h, d)));
        assert(s.push((h, d))[0] == s[0]);
        lemma_decisions_get_push(s.drop_first(), h, d, q);
    }
}

/// A digest that no entry carries is not found.
proof fn lemma_decisions_get_absent(s: DecisionSeq, h: u64)
    requires
        forall|i: int| 0 <= i < s.len() ==> s[i].0 != h,
    ensures
        decisions_get(s, h) is None,
    decreases s.len(),
{
    if s.len() > 0 {
        lemma_decisions_get_absent(s.drop_first(), h);
    }
}

/// A digest stored at index `i` is what lookup returns, when digests are
/// unique.
proof fn lemma_decisions_get_at(s: DecisionSeq, i: int)
    requires
        0 <= i < s.len(),
        forall|p: int, q: int| 0 <= p < q < s.len() ==> s[p].0 != s[q].0,
    ensures
        decisions_get(s, s[i].0) == Some(s[i].1),
    decreases s.len(),
{
    if i > 0 {
        lemma_decisions_get_at(s.drop_first(), i - 1);
    }
}

/// The evaluator's decision store, keyed by signature hash.
pub struct DecisionCache {
    entries: Vec<(u64, CommitteeResponse)>,
}

impl DecisionCache {
    /// The stored decisions, in decision order.
    pub closed spec fn view(self) -> DecisionSeq {
        self.entries@
    }

    /// Digests are pairwise distinct.
    pub open spec fn wf(self) -> bool {
        forall|p: int, q: int| 0 <= p < q < self.view().len() ==> self.view()[p].0
            != self.view()[q].0
    }

    /// An empty store.
    pub fn new() -> (r: DecisionCache)
        ensures
            r.view() =~= Seq::<(u64, CommitteeResponse)>::empty(),
            r.wf(),
    {
        DecisionCache { entries: Vec::new() }
    }

    /// The stored decision for digest `h`, if any.
    pub fn get(&self, h: u64) -> (r: Option<CommitteeResponse>)
        requires
            self.wf(),
        ensures
            r == decisions_get(self.view(), h),
    {
        let n = self.entries.len();
        let mut i: usize = 0;
        while i < n
            invariant
                self.wf(),
                n == self.view().len(),
                i <= n,
                forall|p: int| 0 <= p < i ==> self.view()[p].0 != h,
            decreases n - i,
        {
            if self.entries[i].0 == h {
                proof {
                    lemma_decisions_get_at(self.view(), i as int);
                }
                return Some(self.entries[i].1);
            }
            i = i + 1;
        }
        proof {
            lemma_decisions_get_absent(self.view(), h);
        }
        None
    }

    /// Record the decision for a digest not yet decided.
    pub fn put(&mut self, h: u64, d: CommitteeResponse)
        requires
            old(self).wf(),
            decisions_get(old(self).view(), h) is None,
        ensures
            final(self).wf(),
            final(self).view() == old(self).view().push((h, d)),
    {
        proof {
            assert forall|p: int| 0 <= p < self.view().len() implies self.view()[p].0 != h by {
                if self.view()[p].0 == h {
                    lemma_decisions_get_at(self.view(), p);
                }
            }
        }
        let ghost pre = self.view();
        self.entries.push((h, d));
        proof {
            assert(self.view() =~= pre.push((h, d)));
            assert forall|p: int, q: int|
                0 <= p < q < self.view().len() implies self.view()[p].0 != self.view()[q].0 by {
                if q < pre.len() {
                    assert(self.view()[p] == pre[p] && self.view()[q] == pre[q]);
                } else {
                    assert(self.view()[q] == (h, d) && self.view()[p] == pre[p]);
                }
            }
        }
    }
}

/// What one evaluation step asks of the caller.
#[derive(Clone, Copy, Debug, PartialEq, Eq, Structural)]
pub enum EvalAction {
    /// The digest was already decided; the stored decision is repeated and
    /// nothing changes.
    AlreadyDecided(CommitteeResponse),
    /// A decision was reached locally; publish this signed response.
    Respond(CommitteeResponse),
    /// The candidate passed every local check; ask the validation oracle
    /// about this digest.
    AwaitValidation(u64),
}

/// One evaluation step over the decision store: a cached digest is answered
/// from the store; a consensus-hash mismatch or a structural failure is
/// rejected and recorded at once, with no oracle involvement; anything else
/// is handed to the oracle and stays undecided until the verdict arrives.
pub open spec fn spec_evaluate(s: DecisionSeq, c: BlockCandidate, ctx: EvalContext) -> (
    EvalAction,
    DecisionSeq,
) {
    match decisions_get(s, c.signature_hash) {
        Some(d) => (EvalAction::AlreadyDecided(d), s),
        None => {
            if !spec_consensus_ok(c, ctx) {
                let d = spec_rejection(
                    RejectCode::SortitionViewMismatch,
                    c.signature_hash,
                    ctx.signer_key,
                );
                (EvalAction::Respond(d), s.push((c.signature_hash, d)))
            } else if !spec_structure_ok(c, ctx) {
                let d = spec_rejection(
                    RejectCode::MalformedProposal,
                    c.signature_hash,
                    ctx.signer_key,
                );
                (EvalAction::Respond(d), s.push((c.signature_hash, d)))
            } else {
                (EvalAction::AwaitValidation(c.signature_hash), s)
            }
        },
    }
}

/// The validation oracle's answer for a digest.
#[derive(Clone, Copy, Debug, PartialEq, Eq, Structural)]
pub enum OracleVerdict {
    /// The candidate's content is valid.
    Accept,
    /// The candidate's content is invalid, with the oracle's detail code.
    Reject(u32),
    /// The oracle could not be reached; a transient infrastructure fault.
    Unreachable,
}

/// Folding an oracle verdict into the store: a digest already decided keeps
/// its decision; a candidate whose claimed sortition no longer matches
/// either snapshot has its verdict discarded (it was superseded while
/// pending); an unreachable oracle decides nothing, so the proposal stays
/// open for retry; otherwise the verdict becomes the signed decision.
pub open spec fn spec_apply_verdict(
    s: DecisionSeq,
    h: u64,
    claimed_consensus: u64,
    verdict: OracleVerdict,
    ctx: EvalContext,
) -> (Option<CommitteeResponse>, DecisionSeq) {
    match decisions_get(s, h) {
        Some(d) => (Some(d), s),
        None => {
            if claimed_consensus != ctx.view.current.consensus_hash && claimed_consensus
                != ctx.view.last.consensus_hash {
                (None::<CommitteeResponse>, s)
            } else {
                match verdict {
                    OracleVerdict::Unreachable => (None::<CommitteeResponse>, s),
                    OracleVerdict::Accept => {
                        let d = spec_acceptance(h, ctx.signer_key);
                        (Some(d), s.push((h, d)))
                    },
                    OracleVerdict::Reject(code) => {
                        let d = spec_rejection(
                            RejectCode::ValidationFailed(code),
                            h,
                            ctx.signer_key,
                        );
                        (Some(d), s.push((h, d)))
                    },
                }
            }
        },
    }
}

/// The per-member evaluator: the decision store plus a count of oracle
/// consultations, observable so that callers can see the oracle was never
/// asked about a locally rejected candidate.
pub struct ProposalEvaluator {
    /// Decisions made so far, keyed by signature hash.
    pub cache: DecisionCache,
    /// How many candidates have been handed to the validation oracle.
    pub oracle_requests: u64,
}

impl ProposalEvaluator {
    /// The decision store is well-formed.
    pub open spec fn wf(self) -> bool {
        self.cache.wf()
    }

    /// A fresh evaluator with no decisions and no oracle traffic.
    pub fn new() -> (r: ProposalEvaluator)
        ensures
            r.cache.view() =~= Seq::<(u64, CommitteeResponse)>::empty(),
            r.oracle_requests == 0,
            r.wf(),
    {
        ProposalEvaluator { cache: DecisionCache::new(), oracle_requests: 0 }
    }

    /// Evaluate one candidate as far as local checks go. The oracle counter
    /// moves exactly when the candidate is handed to the oracle.
    pub fn evaluate_step(&mut self, c: &BlockCandidate, ctx: &EvalContext) -> (r: EvalAction)
        requires
            old(self).wf(),
            old(self).oracle_requests < u64::MAX,
        ensures
            final(self).wf(),
            (r, final(self).cache.view()) == spec_evaluate(old(self).cache.view(), *c, *ctx),
            final(self).oracle_requests == old(self).oracle_requests + (
            if r is AwaitValidation {
                1int
            } else {
                0int
            }),
    {
        match self.cache.get(c.signature_hash) {
            Some(d) => EvalAction::AlreadyDecided(d),
            None => {
                if !consensus_ok(c, ctx) {
                    let d = CommitteeResponse::Rejected {
                        reason: RejectCode::SortitionViewMismatch,
                        signature_hash: c.signature_hash,
                        signature: sign_hash(ctx.signer_key, c.signature_hash),
                    };
                    self.cache.put(c.signature_hash, d);
                    EvalAction::Respond(d)
                } else if !structure_ok(c, ctx) {
                    let d = CommitteeResponse::Rejected {
                        reason: RejectCode::MalformedProposal,
                        signature_hash: c.signature_hash,
                        signature: sign_hash(ctx.signer_key, c.signature_hash),
                    };
                    self.cache.put(c.signature_hash, d);
                    EvalAction::Respond(d)
                } else {
                    self.oracle_requests = self.oracle_requests + 1;
                    EvalAction::AwaitValidation(c.signature_hash)
                }
            },
        }
    }

    /// Fold the oracle's verdict for a pending digest into the store.
    pub fn apply_validation_result(
        &mut self,
        h: u64,
        claimed_consensus: u64,
        verdict: OracleVerdict,
        ctx: &EvalContext,
    ) -> (r: Option<CommitteeResponse>)
        requires
            old(self).wf(),
        ensures
            final(self).wf(),
            (r, final(self).cache.view()) == spec_apply_verdict(
                old(self).cache.view(),
                h,
                claimed_consensus,
                verdict,
                *ctx,
            ),
            final(self).oracle_requests == old(self).oracle_requests,
    {
        match self.cache.get(h) {
            Some(d) => Some(d),
            None => {
                if claimed_consensus != ctx.view.current.consensus_hash && claimed_consensus
                    != ctx.view.last.consensus_hash {
                    return None;
                }
                match verdict {
                    OracleVerdict::Unreachable => None,
                    OracleVerdict::Accept => {
                        let d = CommitteeResponse::Accepted {
                            signature_hash: h,
                            signature: sign_hash(ctx.signer_key, h),
                        };
                        self.cache.put(h, d);
                        Some(d)
                    },
                    OracleVerdict::Reject(code) => {
                        let d = CommitteeResponse::Rejected {
                            reason: RejectCode::ValidationFailed(code),
                            signature_hash: h,
                            signature: sign_hash(ctx.signer_key, h),
                        };
                        self.cache.put(h, d);
                        Some(d)
                    },
                }
            },
        }
    }
}

/// The leader's deadline judgment for a member that never answered: once
/// `now` is past the deadline, the missing decision reads as an implicit,
/// signed timeout rejection for the digest; before that there is nothing to
/// conclude.
pub fn timeout_response(h: u64, leader_key: u64, now: u64, deadline: u64) -> (r: Option<
    CommitteeResponse,
>)
    ensures
        r == (if now > deadline {
            Some(spec_rejection(RejectCode::Timeout, h, leader_key))
        } else {
            None::<CommitteeResponse>
        }),
{
    if now > deadline {
        Some(
            CommitteeResponse::Rejected {
                reason: RejectCode::Timeout,
                signature_hash: h,
                signature: sign_hash(leader_key, h),
            },
        )
    } else {
        None
    }
}

/// Once a digest is decided, evaluating it again under any circumstances
/// repeats the stored decision and never changes the store.
pub proof fn lemma_evaluation_idempotent(
    s: DecisionSeq,
    c1: BlockCandidate,
    ctx1: EvalContext,
    c2: BlockCandidate,
    ctx2: EvalContext,
)
    requires
        c2.signature_hash == c1.signature_hash,
        spec_evaluate(s, c1, ctx1).0 matches EvalAction::Respond(_),
    ensures
        ({
            let (a1, s1) = spec_evaluate(s, c1, ctx1);
            let (a2, s2) = spec_evaluate(s1, c2, ctx2);
            &&& a1 matches EvalAction::Respond(d) ==> a2 == EvalAction::AlreadyDecided(d)
            &&& s2 == s1
        }),
{
    let (a1, s1) = spec_evaluate(s, c1, ctx1);
    if let EvalAction::Respond(d) = a1 {
        lemma_decisions_get_push(s, c1.signature_hash, d, c2.signature_hash);
    }
}

/// A candidate whose consensus hash matches no tolerated snapshot is
/// rejected with a sortition-view mismatch, and the oracle is never asked:
/// the step's outcome is a response, not a validation request.
pub proof fn lemma_mismatch_rejected_without_oracle(
    s: DecisionSeq,
    c: BlockCandidate,
    ctx: EvalContext,
)
    requires
        decisions_get(s, c.signature_hash) is None,
        !spec_consensus_ok(c, ctx),
    ensures
        spec_evaluate(s, c, ctx).0 == EvalAction::Respond(
            spec_rejection(RejectCode::SortitionViewMismatch, c.signature_hash, ctx.signer_key),
        ),
        !(spec_evaluate(s, c, ctx).0 is AwaitValidation),
        spec_evaluate(s, c, ctx).1 == s.push(
            (
                c.signature_hash,
                spec_rejection(RejectCode::SortitionViewMismatch, c.signature_hash, ctx.signer_key),
            ),
        ),
{
}

/// Tenure extension against an empty sortition: a tenure-extend candidate
/// referencing the prior sortition passes the consensus check while the
/// current sortition is empty, and the same candidate without the extend
/// flag fails it (once the grace window no longer applies).
pub proof fn lemma_tenure_extend_acceptance(c: BlockCandidate, ctx: EvalContext)
    requires
        ctx.view.current.is_empty,
        c.is_tenure_extend,
        c.consensus_hash == ctx.view.last.consensus_hash,
        c.consensus_hash != ctx.view.current.consensus_hash,
        !ctx.is_first_proposal,
    ensures
        spec_consensus_ok(c, ctx),
        !spec_consensus_ok(BlockCandidate { is_tenure_extend: false, ..c }, ctx),
{
}

} // verus!
