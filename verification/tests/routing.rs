use qubitum_protocol::chain::{insert_sorted_miner_id, remove_indexed_id};
use qubitum_protocol::routing::{
    overflowed_participant_status, rebuild_subnet_routing_index, route_assignment,
    routing_index_consistent, RouteMiner, RouteValidator, RoutingCandidate,
};
use qubitum_protocol::rules::{ensure_submission_fresh, ChainRuleError};
use qubitum_protocol::{
    FailClosedProofVerifier, InferenceProofSubmission, ProofSystem, ProofVerifier,
    RegistryStatus, SubnetPolicy, VerificationOutcome, TARGET_PROOF_SIZE_MIN_BYTES,
};

fn operator(seed: u8) -> [u8; 32] {
    [seed; 32]
}

fn miner(id: u64, op: u8) -> RouteMiner {
    RouteMiner { id, routable: true, operator_commitment: operator(op) }
}

fn validator(id: u64, op: u8) -> RouteValidator {
    RouteValidator { id, routable: true, operator_commitment: operator(op) }
}

#[test]
fn route_assignment_returns_active_participants_only() {
    let miners = vec![miner(0, 2)];
    let validators = vec![validator(0, 3)];
    let assignment = route_assignment(true, &miners, &validators, 0, 42)
        .map(|a| (a.request_id, a.subnet_id, a.miner_id, a.validator_id));
    assert_eq!(assignment, Some((42, 0, 0, 0)));

    // Deactivating the miner empties the miner index.
    let mut miner_index = vec![0u64];
    remove_indexed_id(&mut miner_index, 0);
    assert!(miner_index.is_empty());
    assert_eq!(route_assignment(true, &Vec::new(), &validators, 0, 42), None);
    // An inactive miner is never picked.
    let inactive = vec![RouteMiner { routable: false, ..miner(0, 2) }];
    assert_eq!(route_assignment(true, &inactive, &validators, 0, 42), None);
}

#[test]
fn route_assignment_removes_slashed_participants() {
    let validators = vec![validator(0, 3)];
    let mut miner_index = vec![0u64];
    remove_indexed_id(&mut miner_index, 0);
    let miners: Vec<RouteMiner> = miner_index.iter().map(|id| miner(*id, 2)).collect();
    assert_eq!(route_assignment(true, &miners, &validators, 0, 42), None);
    let mut validator_index = vec![0u64];
    remove_indexed_id(&mut validator_index, 0);
    assert!(validator_index.is_empty());
}

#[test]
fn route_assignment_rejects_self_validation_operator() {
    let miners = vec![miner(0, 2)];
    let validators = vec![validator(0, 2)];
    assert_eq!(route_assignment(true, &miners, &validators, 0, 42), None);
}

#[test]
fn route_assignment_skips_self_validation_validator_when_alternative_exists() {
    let miners = vec![miner(0, 2)];
    let validators = vec![validator(0, 2), validator(1, 3)];
    let assignment = route_assignment(true, &miners, &validators, 0, 42).unwrap();
    assert_eq!(assignment.miner_id, 0);
    assert_eq!(assignment.validator_id, 1);
}

#[test]
fn route_assignment_scans_past_sixteen_self_validation_conflicts() {
    let miners = vec![miner(0, 2)];
    let mut validators: Vec<RouteValidator> = (0..16).map(|id| validator(id, 2)).collect();
    validators.push(validator(16, 3));
    assert_eq!(validators.len(), 17);
    let assignment = route_assignment(true, &miners, &validators, 0, 0).unwrap();
    assert_eq!(assignment.miner_id, 0);
    assert_eq!(assignment.validator_id, 16);
}

#[test]
fn active_miner_index_stays_sorted_by_id() {
    let mut index: Vec<u64> = Vec::new();
    assert_eq!(insert_sorted_miner_id(&mut index, 1, 16), Ok(true));
    assert_eq!(insert_sorted_miner_id(&mut index, 0, 16), Ok(true));
    assert_eq!(index, vec![0, 1]);
}

#[test]
fn runtime_upgrade_demotes_overflow_routing_index_participants_and_reports_health() {
    let limit: u32 = 16;
    let candidates: Vec<RoutingCandidate> = (0..=u64::from(limit))
        .map(|id| RoutingCandidate { id, subnet_id: 0, eligible: true, pending: false })
        .collect();
    let rebuilt = rebuild_subnet_routing_index(&candidates, 0, limit);
    assert_eq!(rebuilt.index, (0..u64::from(limit)).collect::<Vec<u64>>());
    assert_eq!(rebuilt.overflow, vec![u64::from(limit)]);
    assert!(routing_index_consistent(&rebuilt.index, &candidates, 0, limit));
    assert_eq!(
        overflowed_participant_status(RegistryStatus::Active, 0, 1, 20),
        RegistryStatus::Exiting { exit_available_at: 21 }
    );
}

#[test]
fn submission_freshness_window_bounds_both_ends() {
    assert_eq!(ensure_submission_fresh(21, 20, 10), Err(ChainRuleError::ProofSubmittedFromFuture));
    assert_eq!(ensure_submission_fresh(9, 20, 10), Err(ChainRuleError::ProofSubmissionExpired));
    assert_eq!(ensure_submission_fresh(10, 20, 10), Ok(()));
}

#[test]
fn fail_closed_verifier_never_accepts_shape_only_proofs() {
    let submission = InferenceProofSubmission {
        request_id: 44,
        subnet_id: 0,
        miner_id: 0,
        validator_id: 0,
        input_commitment: [1; 32],
        output_commitment: [2; 32],
        model_commitment: [10; 32],
        proof_commitment: [11; 32],
        proof_system: ProofSystem::RiscZeroStark,
        proof_size_bytes: TARGET_PROOF_SIZE_MIN_BYTES,
        verification_latency_ms: 10,
        submitted_at: 1,
    };
    assert_eq!(
        FailClosedProofVerifier.verify(&submission, SubnetPolicy::qubitum()),
        Ok(VerificationOutcome::Error)
    );
}
