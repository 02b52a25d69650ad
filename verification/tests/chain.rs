use qubitum_protocol::chain::{
    count_request_statuses, insert_sorted_miner_id, insert_sorted_validator_id, protocol_params,
    remove_indexed_id, route_index, transition_request_status, ChainReadinessBlockers,
    ChainRequestStatusCounts, ProofVerifierMode, PublicRegistryStatus, QubitumRuntimeConfig,
    RoutingIndexError,
};
use qubitum_protocol::chain::InferenceRequestStatus::{
    Cancelled, Expired, Pending, Rejected, Settled,
};
use qubitum_protocol::rules::ChainRuleError;
use qubitum_protocol::{
    ProtocolState, RegistryStatus, SubnetDomain, SignatureMode, MAX_INVALID_PROOF_SLASH_BPS, MAX_MINER_BOND,
    MINER_REGISTRATION_BURN, MIN_INVALID_PROOF_SLASH_BPS, MIN_MINER_BOND,
    TARGET_PROOF_SIZE_MAX_BYTES, TARGET_PROOF_SIZE_MIN_BYTES, TARGET_VERIFICATION_MS,
};

fn test_config() -> QubitumRuntimeConfig {
    QubitumRuntimeConfig {
        subnet_creation_burn: MINER_REGISTRATION_BURN,
        miner_registration_burn: MINER_REGISTRATION_BURN,
        min_miner_bond: MIN_MINER_BOND,
        max_miner_bond: MAX_MINER_BOND,
        max_active_miners_per_subnet: 16,
        max_active_validators_per_subnet: 32,
        min_validator_stake: MIN_MINER_BOND,
        min_invalid_proof_slash_bps: MIN_INVALID_PROOF_SLASH_BPS,
        max_invalid_proof_slash_bps: MAX_INVALID_PROOF_SLASH_BPS,
        min_proof_size_bytes: TARGET_PROOF_SIZE_MIN_BYTES,
        max_proof_size_bytes: TARGET_PROOF_SIZE_MAX_BYTES,
        max_verification_latency_ms: TARGET_VERIFICATION_MS,
        max_proof_submission_age_blocks: 10,
        signature_mode: SignatureMode::FullPostQuantum,
        shielded_call_payloads: false,
        shielded_call_payload_execution: false,
        proof_verifier_mode: ProofVerifierMode::TestOnly,
        miner_exit_cooldown_blocks: 20,
        validator_exit_cooldown_blocks: 20,
        request_cancel_delay_blocks: 10,
    }
}

#[test]
fn protocol_params_expose_runtime_policy() {
    let params = protocol_params(&test_config());

    assert_eq!(params.subnet_creation_burn, MINER_REGISTRATION_BURN);
    assert_eq!(params.miner_registration_burn, MINER_REGISTRATION_BURN);
    assert_eq!(params.min_miner_bond, MIN_MINER_BOND);
    assert_eq!(params.max_miner_bond, MAX_MINER_BOND);
    assert_eq!(params.max_active_miners_per_subnet, 16);
    assert_eq!(params.max_active_validators_per_subnet, 32);
    assert_eq!(params.min_validator_stake, MIN_MINER_BOND);
    assert_eq!(params.min_invalid_proof_slash_bps, MIN_INVALID_PROOF_SLASH_BPS);
    assert_eq!(params.max_invalid_proof_slash_bps, MAX_INVALID_PROOF_SLASH_BPS);
    assert_eq!(params.min_proof_size_bytes, TARGET_PROOF_SIZE_MIN_BYTES);
    assert_eq!(params.max_proof_size_bytes, TARGET_PROOF_SIZE_MAX_BYTES);
    assert_eq!(params.max_verification_latency_ms, TARGET_VERIFICATION_MS);
    assert_eq!(params.max_proof_submission_age_blocks, 10);
    assert_eq!(params.proof_verifier_mode, ProofVerifierMode::TestOnly);
    assert!(params.proof_settlement_enabled);
    assert!(!params.production_zk_verifier);
    assert_eq!(params.signature_mode, SignatureMode::FullPostQuantum);
    assert!(!params.committed_request_payloads);
    assert!(!params.shielded_call_payloads);
    assert!(!params.shield_submitter_origin_privacy);
    assert!(!params.shield_key_window_privacy);
    assert!(!params.private_route_selection);
    assert!(!params.account_commitment_blinding);
    assert!(!params.private_routing_indexes);
    assert!(!params.private_capital_accounting);
    assert!(!params.private_event_metadata);
    assert!(!params.post_quantum_account_signatures);
    assert!(!params.post_quantum_signature_crypto_verification);
    assert!(!params.privacy_complete);
    assert!(!params.post_quantum_complete);
    assert!(!params.production_ready);
    assert!(params.identity_signature_commitment_policy);
    assert!(params.identity_signature_challenge_binding);
    assert!(!params.identity_signature_verification);
    assert_eq!(
        params.readiness_blockers,
        ChainReadinessBlockers {
            proof_settlement_disabled: false,
            production_zk_verifier_missing: true,
            committed_request_payloads_missing: true,
            shielded_call_payloads_missing: true,
            shield_submitter_origin_privacy_missing: true,
            shield_key_window_privacy_missing: true,
            private_route_selection_missing: true,
            account_commitment_blinding_missing: true,
            private_routing_indexes_missing: true,
            private_storage_keys_missing: true,
            private_capital_accounting_missing: true,
            private_event_metadata_missing: true,
            signature_mode_not_full_post_quantum: false,
            post_quantum_account_signatures_missing: true,
            post_quantum_signature_crypto_verification_missing: true,
            identity_signature_verification_missing: true,
            external_audit_missing: true,
        }
    );
    assert!(params.readiness_blockers.privacy_blocked());
    assert!(params.readiness_blockers.post_quantum_blocked());
    assert!(params.readiness_blockers.production_blocked());
    assert_eq!(params.privacy_complete, !params.readiness_blockers.privacy_blocked());
    assert_eq!(params.post_quantum_complete, !params.readiness_blockers.post_quantum_blocked());
    assert_eq!(params.production_ready, !params.readiness_blockers.production_blocked());
    assert_eq!(params.miner_exit_cooldown_blocks, 20);
    assert_eq!(params.validator_exit_cooldown_blocks, 20);
    assert_eq!(params.request_cancel_delay_blocks, 10);
}

#[test]
fn protocol_params_follow_verifier_signature_and_shielding_config() {
    let mut config = test_config();
    config.proof_verifier_mode = ProofVerifierMode::FailClosed;
    config.signature_mode = SignatureMode::HybridDilithium;
    config.shielded_call_payloads = true;
    config.shielded_call_payload_execution = true;
    let params = protocol_params(&config);
    assert!(!params.proof_settlement_enabled);
    assert!(params.readiness_blockers.proof_settlement_disabled);
    assert!(params.readiness_blockers.signature_mode_not_full_post_quantum);
    assert!(params.shielded_call_payloads);
    assert!(!params.readiness_blockers.shielded_call_payloads_missing);

    config.proof_verifier_mode = ProofVerifierMode::ProductionZk;
    config.shielded_call_payload_execution = false;
    let params = protocol_params(&config);
    assert!(params.proof_settlement_enabled);
    assert!(params.production_zk_verifier);
    assert!(!params.readiness_blockers.production_zk_verifier_missing);
    assert!(params.readiness_blockers.shielded_call_payloads_missing);
    // Execution without the payload flag still counts as missing.
    config.shielded_call_payloads = false;
    config.shielded_call_payload_execution = true;
    assert!(protocol_params(&config).readiness_blockers.shielded_call_payloads_missing);
    assert!(!protocol_params(&config).production_ready);
}

#[test]
fn protocol_params_flag_public_storage_linkability_gaps() {
    let params = protocol_params(&test_config());
    assert!(!params.shield_submitter_origin_privacy);
    assert!(!params.shield_key_window_privacy);
    assert!(!params.account_commitment_blinding);
    assert!(!params.private_routing_indexes);
    assert!(!params.private_capital_accounting);
    assert!(!params.private_event_metadata);
    assert!(params.readiness_blockers.shield_submitter_origin_privacy_missing);
    assert!(params.readiness_blockers.shield_key_window_privacy_missing);
    assert!(params.readiness_blockers.account_commitment_blinding_missing);
    assert!(params.readiness_blockers.private_routing_indexes_missing);
    assert!(params.readiness_blockers.private_capital_accounting_missing);
    assert!(params.readiness_blockers.private_event_metadata_missing);
    assert!(params.readiness_blockers.privacy_blocked());
}

#[test]
fn protocol_params_are_policy_only_across_state_transitions() {
    let config = test_config();
    let baseline = protocol_params(&config);
    let mut state = ProtocolState::with_genesis([99; 32], &[([1; 32], 1_000_000_000_000_000)]).unwrap();
    state.create_subnet([1; 32], SubnetDomain::Code, MINER_REGISTRATION_BURN).unwrap();
    assert_eq!(protocol_params(&config), baseline);
    state.register_validator([1; 32], 0, MIN_MINER_BOND).unwrap();
    assert_eq!(protocol_params(&config), baseline);
}

#[test]
fn verifier_modes() {
    assert!(!ProofVerifierMode::FailClosed.proof_settlement_enabled());
    assert!(ProofVerifierMode::ShapeOnly.proof_settlement_enabled());
    assert!(ProofVerifierMode::ProductionZk.proof_settlement_enabled());
    assert!(ProofVerifierMode::TestOnly.proof_settlement_enabled());
    assert!(ProofVerifierMode::ProductionZk.production_zk_verifier());
    assert!(!ProofVerifierMode::TestOnly.production_zk_verifier());
    assert!(!ProofVerifierMode::ShapeOnly.production_zk_verifier());
}

#[test]
fn readiness_blockers_group_by_capability() {
    let none = ChainReadinessBlockers {
        proof_settlement_disabled: false,
        production_zk_verifier_missing: false,
        committed_request_payloads_missing: false,
        shielded_call_payloads_missing: false,
        shield_submitter_origin_privacy_missing: false,
        shield_key_window_privacy_missing: false,
        private_route_selection_missing: false,
        account_commitment_blinding_missing: false,
        private_routing_indexes_missing: false,
        private_storage_keys_missing: false,
        private_capital_accounting_missing: false,
        private_event_metadata_missing: false,
        signature_mode_not_full_post_quantum: false,
        post_quantum_account_signatures_missing: false,
        post_quantum_signature_crypto_verification_missing: false,
        identity_signature_verification_missing: false,
        external_audit_missing: false,
    };
    assert!(!none.privacy_blocked() && !none.post_quantum_blocked() && !none.production_blocked());
    let audit = ChainReadinessBlockers { external_audit_missing: true, ..none };
    assert!(!audit.privacy_blocked() && !audit.post_quantum_blocked() && audit.production_blocked());
    let keys = ChainReadinessBlockers { private_storage_keys_missing: true, ..none };
    assert!(keys.privacy_blocked() && !keys.post_quantum_blocked() && keys.production_blocked());
    let identity = ChainReadinessBlockers { identity_signature_verification_missing: true, ..none };
    assert!(!identity.privacy_blocked() && identity.post_quantum_blocked());
    assert!(identity.production_blocked());
}

#[test]
fn public_registry_status_hides_exit_schedule() {
    assert_eq!(
        PublicRegistryStatus::from(RegistryStatus::Exiting { exit_available_at: 77 }),
        PublicRegistryStatus::Exiting
    );
    assert_eq!(PublicRegistryStatus::from(RegistryStatus::Active), PublicRegistryStatus::Active);
    assert_eq!(PublicRegistryStatus::from(RegistryStatus::Pending), PublicRegistryStatus::Pending);
    assert_eq!(PublicRegistryStatus::from(RegistryStatus::Slashed), PublicRegistryStatus::Slashed);
    assert_eq!(PublicRegistryStatus::from(RegistryStatus::Disabled), PublicRegistryStatus::Disabled);
}

#[test]
fn route_index_wraps_seed_over_participants() {
    assert_eq!(route_index(7, 0), None);
    assert_eq!(route_index(7, 3), Some(1));
    assert_eq!(route_index(2, 5), Some(2));
    assert_eq!(route_index(u64::MAX, 10), Some(5));
}

#[test]
fn insert_sorted_keeps_index_sorted_and_unique() {
    let mut ids: Vec<u64> = Vec::new();
    assert_eq!(insert_sorted_miner_id(&mut ids, 5, 3), Ok(true));
    assert_eq!(insert_sorted_miner_id(&mut ids, 1, 3), Ok(true));
    assert_eq!(insert_sorted_miner_id(&mut ids, 5, 3), Ok(false));
    assert_eq!(ids, vec![1, 5]);
    assert_eq!(insert_sorted_miner_id(&mut ids, 3, 3), Ok(true));
    assert_eq!(ids, vec![1, 3, 5]);
    assert_eq!(insert_sorted_miner_id(&mut ids, 4, 3), Err(RoutingIndexError::TooManyActiveMiners));
    assert_eq!(ids, vec![1, 3, 5]);
    // A listed id is reported unchanged even when the index is full.
    assert_eq!(insert_sorted_miner_id(&mut ids, 3, 3), Ok(false));
}

#[test]
fn insert_sorted_validator_reports_its_own_error() {
    let mut ids: Vec<u64> = vec![2];
    assert_eq!(
        insert_sorted_validator_id(&mut ids, 0, 1),
        Err(RoutingIndexError::TooManyActiveValidators)
    );
    assert_eq!(ids, vec![2]);
    assert_eq!(insert_sorted_validator_id(&mut ids, 0, 2), Ok(true));
    assert_eq!(ids, vec![0, 2]);
}

#[test]
fn remove_indexed_id_keeps_order_of_rest() {
    let mut ids: Vec<u64> = vec![1, 4, 6, 9];
    remove_indexed_id(&mut ids, 6);
    assert_eq!(ids, vec![1, 4, 9]);
    remove_indexed_id(&mut ids, 7);
    assert_eq!(ids, vec![1, 4, 9]);
    let mut ids: Vec<u64> = vec![3, 3, 2];
    remove_indexed_id(&mut ids, 3);
    assert_eq!(ids, vec![2]);
}

#[test]
fn request_statuses_are_counted() {
    let counts = count_request_statuses(&vec![Pending, Settled, Pending, Expired, Rejected, Pending]);
    assert_eq!(
        counts,
        ChainRequestStatusCounts { pending: 3, settled: 1, cancelled: 0, rejected: 1, expired: 1 }
    );
    assert_eq!(
        count_request_statuses(&Vec::new()),
        ChainRequestStatusCounts { pending: 0, settled: 0, cancelled: 0, rejected: 0, expired: 0 }
    );
}

#[test]
fn request_status_transitions_move_one_count() {
    let counts = ChainRequestStatusCounts { pending: 2, settled: 0, cancelled: 5, rejected: 0, expired: u64::MAX };
    assert_eq!(
        transition_request_status(counts, Pending, Settled),
        Ok(ChainRequestStatusCounts { pending: 1, settled: 1, ..counts })
    );
    assert_eq!(transition_request_status(counts, Rejected, Rejected), Ok(counts));
    assert_eq!(
        transition_request_status(counts, Settled, Pending),
        Err(ChainRuleError::RequestStatusCounterUnderflow)
    );
    assert_eq!(
        transition_request_status(counts, Cancelled, Expired),
        Err(ChainRuleError::ArithmeticOverflow)
    );
    // Moving a request and recounting agrees with the transition.
    let mut statuses = vec![Pending, Pending, Cancelled];
    let before = count_request_statuses(&statuses);
    statuses[1] = Rejected;
    assert_eq!(transition_request_status(before, Pending, Rejected), Ok(count_request_statuses(&statuses)));
}
