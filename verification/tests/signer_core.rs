use stackslib::aggregator::{AddOutcome, Committee, CommitteeMember, ResponseAggregator};
use stackslib::channel::{message_digest, CommitteeChannel, PublishError, SignerMessage,
    SlotMessage};
use stackslib::cycles::{committee_accepts, committee_for_height, compute_committee,
    reward_cycle_of, CycleState, RewardCycleManager};
use stackslib::evaluator::{consensus_ok, sign_hash, timeout_response, verify_share,
    BlockCandidate, CommitteeResponse, EvalAction, EvalContext, OracleVerdict, ProposalEvaluator,
    RejectCode};
use stackslib::sortition::{ProposalEvalConfig, SortitionFacts, SortitionView};

fn facts(hash: u64, height: u64, leader: u64, empty: bool, at: u64) -> SortitionFacts {
    SortitionFacts {
        consensus_hash: hash,
        burn_height: height,
        winning_leader_key: leader,
        is_empty: empty,
        observed_at: at,
    }
}

fn ctx_for(view: SortitionView) -> EvalContext {
    EvalContext {
        view,
        config: ProposalEvalConfig {
            first_proposal_burn_block_timing: 30,
            block_proposal_timeout: 600,
        },
        now: 1000,
        is_first_proposal: false,
        tenure_timed_out: false,
        committee_size: 5,
        expected_parent: 77,
        signer_key: 42,
    }
}

fn candidate(sighash: u64, chash: u64, extend: bool) -> BlockCandidate {
    BlockCandidate {
        signature_hash: sighash,
        consensus_hash: chash,
        parent_block: 77,
        treatment_len: 5,
        is_tenure_extend: extend,
    }
}

fn five_member_committee(cycle: u64) -> Committee {
    let regs: Vec<(u64, u64)> = vec![(1, 1), (2, 1), (3, 1), (4, 1), (5, 1)];
    compute_committee(cycle, &regs).unwrap()
}

#[test]
fn sortition_view_refresh_and_reorg() {
    let mut view = SortitionView {
        current: facts(2, 11, 6, false, 200),
        last: facts(1, 10, 5, false, 100),
    };
    assert!(view.refresh(facts(3, 12, 7, false, 300)));
    assert_eq!(view.current.consensus_hash, 3);
    assert_eq!(view.last.consensus_hash, 2);
    // a non-extending height is a reorg signal: nothing is patched
    assert!(!view.refresh(facts(9, 12, 8, false, 400)));
    assert_eq!(view.current.consensus_hash, 3);
    assert!(SortitionView::assemble(facts(4, 13, 1, false, 0), facts(3, 12, 1, false, 0)).is_ok());
    assert!(SortitionView::assemble(facts(4, 12, 1, false, 0), facts(3, 12, 1, false, 0)).is_err());
}

#[test]
fn sortition_timeout_boundary() {
    let view = SortitionView {
        current: facts(2, 11, 6, false, 100),
        last: facts(1, 10, 5, false, 50),
    };
    let config = ProposalEvalConfig {
        first_proposal_burn_block_timing: 30,
        block_proposal_timeout: 50,
    };
    assert!(!view.is_timed_out(150, &config, false));
    assert!(view.is_timed_out(151, &config, false));
    assert!(!view.is_timed_out(151, &config, true));
}

#[test]
fn evaluation_is_idempotent() {
    let view = SortitionView {
        current: facts(2, 11, 6, false, 200),
        last: facts(1, 10, 5, false, 100),
    };
    let ctx = ctx_for(view);
    let c = candidate(500, 9999, false);
    let mut ev = ProposalEvaluator::new();
    let first = ev.evaluate_step(&c, &ctx);
    let rejected = match first {
        EvalAction::Respond(r) => r,
        other => panic!("expected a response, got {:?}", other),
    };
    // the same digest again: the stored decision is repeated, nothing changes
    let second = ev.evaluate_step(&c, &ctx);
    assert_eq!(second, EvalAction::AlreadyDecided(rejected));
    let third = ev.evaluate_step(&c, &ctx);
    assert_eq!(third, EvalAction::AlreadyDecided(rejected));
    assert_eq!(ev.oracle_requests, 0);
}

#[test]
fn mismatch_rejected_without_oracle() {
    let view = SortitionView {
        current: facts(2, 11, 6, false, 200),
        last: facts(1, 10, 5, false, 100),
    };
    let ctx = ctx_for(view);
    let c = candidate(500, 12345, false);
    let mut ev = ProposalEvaluator::new();
    match ev.evaluate_step(&c, &ctx) {
        EvalAction::Respond(CommitteeResponse::Rejected {
            reason: RejectCode::SortitionViewMismatch,
            signature_hash,
            signature,
        }) => {
            assert_eq!(signature_hash, 500);
            assert!(verify_share(&signature, 42, 500));
        }
        other => panic!("expected a mismatch rejection, got {:?}", other),
    }
    assert_eq!(ev.oracle_requests, 0);
}

#[test]
fn malformed_rejected_before_oracle() {
    let view = SortitionView {
        current: facts(2, 11, 6, false, 200),
        last: facts(1, 10, 5, false, 100),
    };
    let ctx = ctx_for(view);
    let mut bad = candidate(501, 2, false);
    bad.treatment_len = 4;
    let mut ev = ProposalEvaluator::new();
    match ev.evaluate_step(&bad, &ctx) {
        EvalAction::Respond(CommitteeResponse::Rejected {
            reason: RejectCode::MalformedProposal,
            ..
        }) => {}
        other => panic!("expected a malformed rejection, got {:?}", other),
    }
    assert_eq!(ev.oracle_requests, 0);
}

#[test]
fn grace_window_is_strict() {
    // a first proposal against the prior sortition is tolerated strictly
    // within the grace window
    let view = SortitionView {
        current: facts(2, 11, 6, false, 200),
        last: facts(1, 10, 5, false, 100),
    };
    let mut ctx = ctx_for(view);
    ctx.is_first_proposal = true;
    let c = candidate(502, 1, false);
    ctx.now = 229;
    assert!(consensus_ok(&c, &ctx));
    ctx.now = 230;
    assert!(!consensus_ok(&c, &ctx));
    // a later proposal gets no grace at all
    ctx.now = 229;
    ctx.is_first_proposal = false;
    assert!(!consensus_ok(&c, &ctx));
}

#[test]
fn tenure_extend_against_empty_sortition() {
    let view = SortitionView {
        current: facts(2, 11, 6, true, 200),
        last: facts(1, 10, 5, false, 100),
    };
    let ctx = ctx_for(view);
    let extend = candidate(600, 1, true);
    let mut ev = ProposalEvaluator::new();
    assert_eq!(ev.evaluate_step(&extend, &ctx), EvalAction::AwaitValidation(600));
    assert_eq!(ev.oracle_requests, 1);
    // the same proposal without the extend flag is rejected
    let plain = candidate(601, 1, false);
    match ev.evaluate_step(&plain, &ctx) {
        EvalAction::Respond(CommitteeResponse::Rejected {
            reason: RejectCode::SortitionViewMismatch,
            ..
        }) => {}
        other => panic!("expected a mismatch rejection, got {:?}", other),
    }
    assert_eq!(ev.oracle_requests, 1);
}

#[test]
fn oracle_verdicts_decide_or_stay_open() {
    let view = SortitionView {
        current: facts(2, 11, 6, false, 200),
        last: facts(1, 10, 5, false, 100),
    };
    let ctx = ctx_for(view);
    let c = candidate(700, 2, false);
    let mut ev = ProposalEvaluator::new();
    assert_eq!(ev.evaluate_step(&c, &ctx), EvalAction::AwaitValidation(700));
    // a transient fault decides nothing: the proposal stays open for retry
    assert_eq!(ev.apply_validation_result(700, 2, OracleVerdict::Unreachable, &ctx), None);
    assert_eq!(ev.evaluate_step(&c, &ctx), EvalAction::AwaitValidation(700));
    // a rejection verdict becomes a signed validation-failed response
    match ev.apply_validation_result(700, 2, OracleVerdict::Reject(3), &ctx) {
        Some(CommitteeResponse::Rejected {
            reason: RejectCode::ValidationFailed(3),
            signature_hash: 700,
            ..
        }) => {}
        other => panic!("expected a validation failure, got {:?}", other),
    }
    // a superseded verdict is discarded
    let mut ev2 = ProposalEvaluator::new();
    assert_eq!(ev2.evaluate_step(&c, &ctx), EvalAction::AwaitValidation(700));
    assert_eq!(ev2.apply_validation_result(700, 8888, OracleVerdict::Accept, &ctx), None);
}

#[test]
fn threshold_at_seventy_percent_weight() {
    // total weight 10; 70% is reached at weight 7 even with members silent
    let regs: Vec<(u64, u64)> = vec![(1, 3), (2, 3), (3, 2), (4, 1), (5, 1)];
    let committee = compute_committee(9, &regs).unwrap();
    let mut agg = ResponseAggregator::new(committee, 900);
    assert_eq!(agg.add_acceptance(1, sign_hash(1, 900)), AddOutcome::Counted(3));
    assert_eq!(agg.add_acceptance(2, sign_hash(2, 900)), AddOutcome::Counted(3));
    assert!(!agg.is_threshold_met());
    assert_eq!(agg.add_acceptance(4, sign_hash(4, 900)), AddOutcome::Counted(1));
    assert!(agg.accepted_weight() == 7);
    assert!(agg.is_threshold_met());
}

#[test]
fn four_of_five_members_reach_threshold() {
    let committee = five_member_committee(3);
    let mut agg = ResponseAggregator::new(committee, 901);
    for key in 1..=3u64 {
        assert_eq!(agg.add_acceptance(key, sign_hash(key, 901)), AddOutcome::Counted(1));
    }
    assert!(!agg.is_threshold_met());
    assert_eq!(agg.add_acceptance(4, sign_hash(4, 901)), AddOutcome::Counted(1));
    assert!(agg.is_threshold_met());
}

#[test]
fn aggregator_refuses_bad_shares() {
    let committee = five_member_committee(3);
    let mut agg = ResponseAggregator::new(committee, 902);
    // a share over another digest does not verify
    assert_eq!(agg.add_acceptance(1, sign_hash(1, 999)), AddOutcome::BadSignature);
    // a share claiming another member's key does not verify
    assert_eq!(agg.add_acceptance(2, sign_hash(1, 902)), AddOutcome::BadSignature);
    // a non-member is discarded
    assert_eq!(agg.add_acceptance(100, sign_hash(100, 902)), AddOutcome::NotMember);
    // double counting is refused
    assert_eq!(agg.add_acceptance(1, sign_hash(1, 902)), AddOutcome::Counted(1));
    assert_eq!(agg.add_acceptance(1, sign_hash(1, 902)), AddOutcome::Duplicate);
    assert_eq!(agg.accepted_weight(), 1);
}

#[test]
fn stale_cycle_signature_does_not_count() {
    // the member with key 5 sat in the old cycle's committee but not in the
    // new one: its valid share contributes nothing to the new cycle
    let old_committee = five_member_committee(3);
    let regs: Vec<(u64, u64)> = vec![(6, 1), (7, 1), (8, 1), (9, 1)];
    let new_committee = compute_committee(4, &regs).unwrap();
    let mut old_agg = ResponseAggregator::new(old_committee, 903);
    assert_eq!(old_agg.add_acceptance(5, sign_hash(5, 903)), AddOutcome::Counted(1));
    let mut new_agg = ResponseAggregator::new(new_committee, 903);
    assert_eq!(new_agg.add_acceptance(5, sign_hash(5, 903)), AddOutcome::NotMember);
    assert_eq!(new_agg.accepted_weight(), 0);
}

#[test]
fn stale_proposal_then_current_proposal() {
    // hash 0 belongs to the sortition before last: outside every tolerance
    let view = SortitionView {
        current: facts(2, 12, 6, false, 200),
        last: facts(1, 11, 5, false, 100),
    };
    let ctx = ctx_for(view);
    let mut ev = ProposalEvaluator::new();
    let stale = candidate(800, 0, false);
    match ev.evaluate_step(&stale, &ctx) {
        EvalAction::Respond(CommitteeResponse::Rejected {
            reason: RejectCode::SortitionViewMismatch,
            ..
        }) => {}
        other => panic!("expected a mismatch rejection, got {:?}", other),
    }
    assert_eq!(ev.oracle_requests, 0);
    // a second proposal matching the current sortition goes to the oracle
    // and is accepted
    let fresh = candidate(801, 2, false);
    assert_eq!(ev.evaluate_step(&fresh, &ctx), EvalAction::AwaitValidation(801));
    let accepted = match ev.apply_validation_result(801, 2, OracleVerdict::Accept, &ctx) {
        Some(r @ CommitteeResponse::Accepted { .. }) => r,
        other => panic!("expected an acceptance, got {:?}", other),
    };
    match accepted {
        CommitteeResponse::Accepted { signature_hash, signature } => {
            assert_eq!(signature_hash, 801);
            assert!(verify_share(&signature, 42, 801));
        }
        _ => unreachable!(),
    }
    // four of the five members accept: at least 70% of the weight
    let committee = five_member_committee(7);
    let mut agg = ResponseAggregator::new(committee, 801);
    for key in 1..=4u64 {
        assert_eq!(agg.add_acceptance(key, sign_hash(key, 801)), AddOutcome::Counted(1));
    }
    assert!(agg.is_threshold_met());
}

#[test]
fn channel_replay_is_refused() {
    let owners: Vec<u64> = vec![11, 22];
    let mut chan = CommitteeChannel::new(&owners);
    let make = |version: u32| {
        let payload = SignerMessage::StatusRequest;
        let digest = message_digest(&payload);
        SlotMessage { version, signature: sign_hash(11, digest), payload }
    };
    assert_eq!(chan.publish(0, make(3)), Ok(()));
    // a lower version to the same slot is refused, not silently dropped
    assert_eq!(chan.publish(0, make(2)), Err(PublishError::StaleVersion));
    assert_eq!(chan.publish(0, make(3)), Err(PublishError::StaleVersion));
    // the visible state is unchanged: only the first message is there
    let seen = chan.poll_slot(0);
    assert_eq!(seen.len(), 1);
    assert_eq!(seen[0].version, 3);
    assert_eq!(chan.publish(0, make(4)), Ok(()));
    let seen = chan.poll_slot(0);
    assert_eq!(seen.len(), 1);
    assert_eq!(seen[0].version, 4);
    assert_eq!(chan.publish(9, make(5)), Err(PublishError::NoSuchSlot));
}

#[test]
fn channel_drops_unverifiable_messages() {
    let owners: Vec<u64> = vec![11];
    let mut chan = CommitteeChannel::new(&owners);
    let payload = SignerMessage::StatusRequest;
    let digest = message_digest(&payload);
    let good = SlotMessage { version: 1, signature: sign_hash(11, digest), payload };
    let forged = SlotMessage { version: 2, signature: sign_hash(99, digest), payload };
    assert_eq!(chan.publish(0, good), Ok(()));
    assert_eq!(chan.publish(0, forged), Ok(()));
    let seen = chan.poll_slot(0);
    assert_eq!(seen.len(), 1);
    assert_eq!(seen[0].version, 1);
    // polling again surfaces nothing new
    assert_eq!(chan.poll_slot(0).len(), 0);
}

#[test]
fn reward_cycle_arithmetic() {
    assert_eq!(reward_cycle_of(100, 0, 10), Some(10));
    assert_eq!(reward_cycle_of(99, 0, 10), Some(9));
    assert_eq!(reward_cycle_of(5, 10, 10), None);
    assert_eq!(reward_cycle_of(100, 0, 0), None);
    assert_eq!(reward_cycle_of(25, 5, 10), Some(2));
}

#[test]
fn committee_computation_is_exact() {
    let regs: Vec<(u64, u64)> = vec![(10, 7), (20, 3)];
    let c = compute_committee(5, &regs).unwrap();
    assert_eq!(c.reward_cycle, 5);
    assert_eq!(c.members.len(), 2);
    assert_eq!(
        c.members[0],
        CommitteeMember { public_key: 10, weight: 7, assigned_slot: 0 }
    );
    assert_eq!(
        c.members[1],
        CommitteeMember { public_key: 20, weight: 3, assigned_slot: 1 }
    );
    assert_eq!(c.total_weight(), 10);
    assert_eq!(c.member_weight(10), Some(7));
    assert_eq!(c.member_weight(11), None);
    // a key that registers twice is refused
    let dup: Vec<(u64, u64)> = vec![(10, 7), (10, 3)];
    assert!(compute_committee(5, &dup).is_none());
    // an overflowing total weight is refused
    let heavy: Vec<(u64, u64)> = vec![(1, u64::MAX), (2, 1)];
    assert!(compute_committee(5, &heavy).is_none());
}

#[test]
fn cycle_lifecycle_and_retirement() {
    let mut mgr = RewardCycleManager::new(10);
    assert_eq!(mgr.state, CycleState::Future);
    assert!(!mgr.may_sign());
    mgr.begin_computing();
    assert_eq!(mgr.state, CycleState::Computing);
    let committee = compute_committee(10, &vec![(1u64, 1u64)]).unwrap();
    mgr.activate(committee);
    assert!(mgr.may_sign());
    // heights inside cycle 10 keep it active (cycle length 10, first at 0)
    mgr.observe_burn_height(109, 0, 10);
    assert!(mgr.may_sign());
    // the next cycle's first height retires it
    mgr.observe_burn_height(110, 0, 10);
    assert_eq!(mgr.state, CycleState::Retired);
    assert!(!mgr.may_sign());
    match mgr.status_response() {
        SignerMessage::StatusResponse { reward_cycle, active } => {
            assert_eq!(reward_cycle, 10);
            assert!(!active);
        }
        other => panic!("expected a status response, got {:?}", other),
    }
}

#[test]
fn rollover_splits_verification_by_height() {
    // five members replaced by four new ones at the boundary
    let old_committee = five_member_committee(3);
    let regs: Vec<(u64, u64)> = vec![(6, 1), (7, 1), (8, 1), (9, 1)];
    let new_committee = compute_committee(4, &regs).unwrap();
    let boundary = 100u64;
    let block_hash = 555u64;
    let old_share = sign_hash(3, block_hash);
    let new_share = sign_hash(7, block_hash);
    for h in [0u64, 50, 99] {
        let c = committee_for_height(&old_committee, &new_committee, boundary, h);
        assert!(committee_accepts(c, &old_share, block_hash));
        assert!(!committee_accepts(c, &new_share, block_hash));
    }
    for h in [100u64, 101, 10_000] {
        let c = committee_for_height(&old_committee, &new_committee, boundary, h);
        assert!(!committee_accepts(c, &old_share, block_hash));
        assert!(committee_accepts(c, &new_share, block_hash));
    }
    // a share over another digest verifies nowhere
    let wrong = sign_hash(3, 556);
    assert!(!committee_accepts(&old_committee, &wrong, block_hash));
}

#[test]
fn leader_deadline_reads_as_timeout() {
    assert_eq!(timeout_response(42, 9, 100, 100), None);
    match timeout_response(42, 9, 101, 100) {
        Some(CommitteeResponse::Rejected {
            reason: RejectCode::Timeout,
            signature_hash: 42,
            signature,
        }) => assert!(verify_share(&signature, 9, 42)),
        other => panic!("expected a timeout rejection, got {:?}", other),
    }
}

#[test]
fn empty_committee_threshold_is_vacuous() {
    // with no weight registered at all, seventy percent of nothing is nothing
    let committee = compute_committee(1, &Vec::new()).unwrap();
    let agg = ResponseAggregator::new(committee, 1);
    assert_eq!(agg.accepted_weight(), 0);
    assert!(agg.is_threshold_met());
}
