use qubitum_protocol::routing::{
    overflowed_participant_status, rebuild_subnet_routing_index, route_active_validator,
    route_assignment, routing_index_consistent, ChainAssignment, RouteMiner, RouteValidator, RoutingCandidate,
};
use qubitum_protocol::chain::ChainAccounting;
use qubitum_protocol::rules::{
    decrement_pending_count, ensure_submission_fresh, increment_pending_count, payment_split,
    record_inference_escrow, record_inference_refund,
    record_inference_settlement, slash_locked_capital, validate_fee_split, ChainRuleError,
    SlashOutcome,
};
use qubitum_protocol::{RegistryStatus, MAX_INVALID_PROOF_SLASH_BPS, MIN_INVALID_PROOF_SLASH_BPS};

#[test]
fn fee_split_rejects_more_than_the_whole_payment() {
    assert_eq!(validate_fee_split(1_000, 500), Ok(()));
    assert_eq!(validate_fee_split(5_000, 5_000), Ok(()));
    assert_eq!(validate_fee_split(5_000, 5_001), Err(ChainRuleError::InvalidFeeSplit));
    assert_eq!(validate_fee_split(u16::MAX, 1), Err(ChainRuleError::ArithmeticOverflow));
}

#[test]
fn payment_split_gives_rounding_remainder_to_miner() {
    assert_eq!(payment_split(1_001, 1_000, 500), Ok((851, 100, 50)));
    assert_eq!(payment_split(1_000, 0, 0), Ok((1_000, 0, 0)));
    assert_eq!(payment_split(9, 5_000, 5_000), Ok((1, 4, 4)));
    let (miner, validator, treasury) = payment_split(123_456_789, 2_500, 1_234).unwrap();
    assert_eq!(miner + validator + treasury, 123_456_789);
}

#[test]
fn payment_split_errors() {
    assert_eq!(payment_split(1_000, 9_000, 2_000), Err(ChainRuleError::InvalidFeeSplit));
    assert_eq!(payment_split(u128::MAX, 2, 0), Err(ChainRuleError::ArithmeticOverflow));
    assert_eq!(payment_split(u128::MAX, 0, 2), Err(ChainRuleError::ArithmeticOverflow));
}

#[test]
fn submission_freshness_window() {
    assert_eq!(ensure_submission_fresh(10, 10, 5), Ok(()));
    assert_eq!(ensure_submission_fresh(5, 10, 5), Ok(()));
    assert_eq!(ensure_submission_fresh(4, 10, 5), Err(ChainRuleError::ProofSubmissionExpired));
    assert_eq!(ensure_submission_fresh(11, 10, 5), Err(ChainRuleError::ProofSubmittedFromFuture));
    assert_eq!(ensure_submission_fresh(0, 3, 10), Ok(()));
}

#[test]
fn slash_burns_share_and_demotes_below_minimum() {
    let outcome = slash_locked_capital(
        1_000,
        MIN_INVALID_PROOF_SLASH_BPS,
        MIN_INVALID_PROOF_SLASH_BPS,
        MAX_INVALID_PROOF_SLASH_BPS,
        950,
        RegistryStatus::Active,
        7,
    );
    assert_eq!(
        outcome,
        Ok(SlashOutcome {
            burned: 100,
            remaining: 900,
            status: RegistryStatus::Slashed,
            removed_from_index: true,
            total_burned: 107,
        })
    );

    let kept = slash_locked_capital(1_000, 1_000, 1_000, 10_000, 900, RegistryStatus::Active, 0)
        .unwrap();
    assert_eq!(kept.status, RegistryStatus::Active);
    assert!(!kept.removed_from_index);

    let exiting = RegistryStatus::Exiting { exit_available_at: 40 };
    let outcome = slash_locked_capital(1_000, 10_000, 1_000, 10_000, 900, exiting, 0).unwrap();
    assert_eq!(outcome.burned, 1_000);
    assert_eq!(outcome.remaining, 0);
    assert_eq!(outcome.status, exiting);
    assert!(!outcome.removed_from_index);
}

#[test]
fn slash_errors() {
    assert_eq!(
        slash_locked_capital(1_000, 999, 1_000, 10_000, 0, RegistryStatus::Active, 0),
        Err(ChainRuleError::InvalidSlashPercent)
    );
    assert_eq!(
        slash_locked_capital(1_000, 10_001, 1_000, 10_000, 0, RegistryStatus::Active, 0),
        Err(ChainRuleError::InvalidSlashPercent)
    );
    assert_eq!(
        slash_locked_capital(u128::MAX, 1_000, 1_000, 10_000, 0, RegistryStatus::Active, 0),
        Err(ChainRuleError::ArithmeticOverflow)
    );
    assert_eq!(
        slash_locked_capital(1_000, 1_000, 1_000, 10_000, 0, RegistryStatus::Active, u128::MAX),
        Err(ChainRuleError::ArithmeticOverflow)
    );
    assert_eq!(
        slash_locked_capital(1_000, 20_000, 1_000, 20_000, 0, RegistryStatus::Active, 0),
        Err(ChainRuleError::FundsUnavailable)
    );
}

fn candidate(id: u64, subnet_id: u16, eligible: bool, pending: bool) -> RoutingCandidate {
    RoutingCandidate { id, subnet_id, eligible, pending }
}

#[test]
fn rebuild_sorts_eligible_candidates_of_the_subnet() {
    let candidates = vec![
        candidate(9, 0, true, false),
        candidate(3, 0, true, false),
        candidate(4, 1, true, false),
        candidate(7, 0, false, false),
        candidate(5, 0, true, true),
    ];
    let rebuilt = rebuild_subnet_routing_index(&candidates, 0, 16);
    assert_eq!(rebuilt.index, vec![3, 5, 9]);
    assert!(rebuilt.overflow.is_empty());
    let other = rebuild_subnet_routing_index(&candidates, 1, 16);
    assert_eq!(other.index, vec![4]);
}

#[test]
fn rebuild_offers_pending_participants_first() {
    let candidates = vec![
        candidate(1, 0, true, false),
        candidate(2, 0, true, false),
        candidate(8, 0, true, true),
        candidate(6, 0, true, true),
    ];
    let rebuilt = rebuild_subnet_routing_index(&candidates, 0, 3);
    assert_eq!(rebuilt.index, vec![1, 6, 8]);
    assert_eq!(rebuilt.overflow, vec![2]);

    let tight = rebuild_subnet_routing_index(&candidates, 0, 1);
    assert_eq!(tight.index, vec![8]);
    assert_eq!(tight.overflow, vec![6, 1, 2]);
}

#[test]
fn rebuild_keeps_duplicates_once() {
    let candidates = vec![candidate(4, 2, true, true), candidate(4, 2, true, false)];
    let rebuilt = rebuild_subnet_routing_index(&candidates, 2, 1);
    assert_eq!(rebuilt.index, vec![4]);
    assert!(rebuilt.overflow.is_empty());
    let empty = rebuild_subnet_routing_index(&candidates, 2, 0);
    assert!(empty.index.is_empty());
    assert_eq!(empty.overflow, vec![4, 4]);
}

#[test]
fn overflowed_active_participant_starts_exiting() {
    assert_eq!(
        overflowed_participant_status(RegistryStatus::Active, 0, 100, 20),
        RegistryStatus::Exiting { exit_available_at: 120 }
    );
    assert_eq!(
        overflowed_participant_status(RegistryStatus::Active, 0, u64::MAX - 1, 20),
        RegistryStatus::Exiting { exit_available_at: u64::MAX }
    );
    assert_eq!(overflowed_participant_status(RegistryStatus::Active, 2, 100, 20), RegistryStatus::Active);
    assert_eq!(overflowed_participant_status(RegistryStatus::Slashed, 0, 100, 20), RegistryStatus::Slashed);
}

fn route_miner(id: u64, routable: bool, operator: u8) -> RouteMiner {
    RouteMiner { id, routable, operator_commitment: [operator; 32] }
}

fn route_validator(id: u64, routable: bool, operator: u8) -> RouteValidator {
    RouteValidator { id, routable, operator_commitment: [operator; 32] }
}

fn expected_validator_start(request_id: u64, subnet_id: u16, len: usize) -> usize {
    ((request_id.rotate_left(32) ^ u64::from(subnet_id)) % len as u64) as usize
}

#[test]
fn route_assignment_scans_from_request_position() {
    let miners = vec![route_miner(10, true, 1), route_miner(11, true, 2), route_miner(12, true, 3)];
    let validators = vec![route_validator(20, true, 7), route_validator(21, true, 8)];
    for request_id in [0u64, 1, 2, 5, 1 << 40, u64::MAX] {
        let assignment = route_assignment(true, &miners, &validators, 3, request_id).unwrap();
        assert_eq!(assignment.request_id, request_id);
        assert_eq!(assignment.subnet_id, 3);
        assert_eq!(assignment.miner_id, miners[(request_id % 3) as usize].id);
        let v = expected_validator_start(request_id, 3, validators.len());
        assert_eq!(assignment.validator_id, validators[v].id);
    }
}

#[test]
fn route_assignment_skips_unroutable_and_self_validation() {
    let miners = vec![route_miner(10, false, 1), route_miner(11, true, 2)];
    let validators = vec![route_validator(20, true, 2), route_validator(21, false, 9), route_validator(22, true, 4)];
    let assignment = route_assignment(true, &miners, &validators, 0, 0).unwrap();
    assert_eq!(assignment.miner_id, 11);
    assert_eq!(assignment.validator_id, 22);
    assert_eq!(
        assignment,
        ChainAssignment { request_id: 0, subnet_id: 0, miner_id: 11, validator_id: 22 }
    );
    assert_eq!(route_active_validator(&validators, 0, &[2; 32]), Some(22));
    assert_eq!(route_active_validator(&validators, 1, &[4; 32]), Some(20));
    assert_eq!(route_active_validator(&Vec::new(), 1, &[4; 32]), None);
}

#[test]
fn route_assignment_fails_without_a_pair() {
    let miners = vec![route_miner(10, true, 1)];
    let validators = vec![route_validator(20, true, 1)];
    assert_eq!(route_assignment(true, &miners, &validators, 0, 4), None);
    let validators = vec![route_validator(20, true, 2)];
    assert_eq!(route_assignment(false, &miners, &validators, 0, 4), None);
    assert_eq!(route_assignment(true, &Vec::new(), &validators, 0, 4), None);
    assert!(route_assignment(true, &miners, &validators, 0, 4).is_some());
}

#[test]
fn rebuilt_index_passes_the_upgrade_check() {
    let candidates = vec![
        candidate(1, 0, true, false),
        candidate(2, 0, true, false),
        candidate(8, 0, true, true),
        candidate(6, 0, true, true),
        candidate(7, 0, false, true),
        candidate(3, 1, true, false),
    ];
    for capacity in 0..6 {
        let rebuilt = rebuild_subnet_routing_index(&candidates, 0, capacity);
        assert!(routing_index_consistent(&rebuilt.index, &candidates, 0, capacity));
    }
}

#[test]
fn upgrade_check_flags_stale_indexes() {
    let candidates = vec![candidate(1, 0, true, false), candidate(2, 0, true, false), candidate(7, 0, false, false)];
    // Lists an ineligible participant.
    assert!(!routing_index_consistent(&vec![1, 7], &candidates, 0, 4));
    // Lists a participant of another subnet.
    assert!(!routing_index_consistent(&vec![1], &candidates, 1, 4));
    // Misses an eligible participant while not full.
    assert!(!routing_index_consistent(&vec![1], &candidates, 0, 4));
    // A full index may miss one.
    assert!(routing_index_consistent(&vec![1], &candidates, 0, 1));
    assert!(routing_index_consistent(&vec![1, 2], &candidates, 0, 4));
}

fn zero_accounting() -> ChainAccounting {
    ChainAccounting {
        total_inference_escrowed: 0,
        total_miner_payouts: 0,
        total_validator_fees: 0,
        total_treasury_fees: 0,
        total_inference_refunded: 0,
        legacy_migration_failures: 0,
    }
}

#[test]
fn escrow_then_settlement_pays_out_the_escrow() {
    let escrowed = record_inference_escrow(zero_accounting(), 1_001).unwrap();
    assert_eq!(escrowed.total_inference_escrowed, 1_001);
    let (miner, validator, treasury) = payment_split(1_001, 1_000, 500).unwrap();
    let settled = record_inference_settlement(escrowed, miner, validator, treasury).unwrap();
    assert_eq!(
        settled,
        ChainAccounting {
            total_inference_escrowed: 1_001,
            total_miner_payouts: 851,
            total_validator_fees: 100,
            total_treasury_fees: 50,
            total_inference_refunded: 0,
            legacy_migration_failures: 0,
        }
    );
    let refunded = record_inference_refund(settled, 7).unwrap();
    assert_eq!(refunded.total_inference_refunded, 7);
    assert_eq!(refunded.total_miner_payouts, 851);
}

#[test]
fn accounting_totals_refuse_overflow() {
    let full = ChainAccounting { total_validator_fees: u128::MAX, ..zero_accounting() };
    assert_eq!(record_inference_settlement(full, 1, 1, 1), Err(ChainRuleError::ArithmeticOverflow));
    assert_eq!(record_inference_settlement(full, 1, 0, 1).unwrap().total_miner_payouts, 1);
    let full = ChainAccounting { total_inference_escrowed: u128::MAX, ..zero_accounting() };
    assert_eq!(record_inference_escrow(full, 1), Err(ChainRuleError::ArithmeticOverflow));
    let full = ChainAccounting { total_inference_refunded: u128::MAX, ..zero_accounting() };
    assert_eq!(record_inference_refund(full, 1), Err(ChainRuleError::ArithmeticOverflow));
    assert_eq!(record_inference_refund(full, 0), Ok(full));
}

#[test]
fn pending_counters_round_trip() {
    assert_eq!(increment_pending_count(0), Ok(1));
    assert_eq!(increment_pending_count(u32::MAX), Err(ChainRuleError::ArithmeticOverflow));
    assert_eq!(decrement_pending_count(Some(1)), Ok(None));
    assert_eq!(decrement_pending_count(Some(5)), Ok(Some(4)));
    assert_eq!(decrement_pending_count(None), Err(ChainRuleError::PendingAssignmentUnderflow));
    assert_eq!(decrement_pending_count(Some(0)), Err(ChainRuleError::PendingAssignmentUnderflow));
    let after = decrement_pending_count(Some(increment_pending_count(3).unwrap()));
    assert_eq!(after, Ok(Some(3)));
}
