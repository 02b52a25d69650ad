use qubitum_protocol::chain::{
    ChainAccounting, ChainPublicIdentity, ChainPublicInferenceRequest, ChainPublicMiner,
    ChainPublicProofRecord, ChainPublicSubnet, ChainPublicValidator, ChainRequestStatusCounts,
    ChainRouteAvailability, InferenceRequestStatus, PublicRegistryStatus,
};
use qubitum_protocol::post_quantum::{SignatureAlgorithm, SignatureBundle, SignatureCommitment};
use qubitum_protocol::lifecycle::IdentityBinding;
use qubitum_protocol::route_view::InferenceRequestParams;
use qubitum_protocol::routing::ChainAssignment;
use qubitum_protocol::registry::{
    ChainInferenceRequest, ChainMiner, ChainRegistry, ChainSubnet, ChainValidator,
    IdentityUpdateWitness, ProofEnvelopeWitness, SignatureBindings, SubmissionBounds,
};
use qubitum_protocol::rules::ChainRuleError;
use qubitum_protocol::settlement::{
    AccountCommitments, CapitalCommitments, ClosureWitness, InferenceRequestTerms,
    ProofSettlement, SettlementRules, SettlementWitness,
};
use qubitum_protocol::{
    Commitment, InferenceProofSubmission, ProofSystem, RegistryStatus, SignatureMode,
    SubnetDomain, VerificationOutcome, MAX_INVALID_PROOF_SLASH_BPS, MAX_MINER_BOND,
    MINER_REGISTRATION_BURN, MIN_INVALID_PROOF_SLASH_BPS, MIN_MINER_BOND, TARGET_PROOF_SIZE_MAX_BYTES, TARGET_PROOF_SIZE_MIN_BYTES,
    TARGET_VERIFICATION_MS,
};

const CAPACITY: u32 = 64;
const SUBNET_CREATION_BURN: u128 = 1_000_000_000_000_000;
const REGISTRATION_BURNED: u128 = SUBNET_CREATION_BURN + MINER_REGISTRATION_BURN;

fn commitment(n: u8) -> Commitment {
    [n; 32]
}

fn operator(account: u8) -> AccountCommitments {
    AccountCommitments { role: commitment(200 + account), account: commitment(230 + account) }
}

fn bundle(seed: u8) -> SignatureBundle {
    SignatureBundle {
        classical: Some(SignatureCommitment {
            algorithm: SignatureAlgorithm::Ecdsa,
            public_key_commitment: commitment(seed),
            signature_commitment: commitment(seed + 1),
        }),
        post_quantum: Some(SignatureCommitment {
            algorithm: SignatureAlgorithm::Dilithium3,
            public_key_commitment: commitment(seed + 2),
            signature_commitment: commitment(seed + 3),
        }),
    }
}

fn identity_witness(seed: u8) -> IdentityUpdateWitness {
    IdentityUpdateWitness {
        challenge: commitment(seed + 4),
        bindings: SignatureBindings {
            classical: commitment(seed + 1),
            post_quantum: commitment(seed + 3),
        },
        active_capital_commitment: commitment(seed + 5),
        pending_capital_commitment: commitment(seed + 6),
    }
}

fn register_active_miner_and_validator() -> ChainRegistry {
    let mut reg = ChainRegistry::new();
    let subnet = reg
        .create_subnet(
            SubnetDomain::Code,
            ProofSystem::RiscZeroStark,
            commitment(1),
            commitment(5),
            SUBNET_CREATION_BURN,
        )
        .unwrap();
    assert_eq!(subnet, 0);
    let miner = reg
        .register_miner(
            0,
            commitment(10),
            ProofSystem::RiscZeroStark,
            operator(2).role,
            commitment(29),
            MINER_REGISTRATION_BURN,
        )
        .unwrap();
    assert_eq!(miner, 0);
    reg.set_miner_identity_commitments(
        operator(2),
        0,
        Some(commitment(120)),
        Some(commitment(121)),
        bundle(40),
        SignatureMode::HybridDilithium,
        identity_witness(40),
        CAPACITY,
    )
    .unwrap();
    reg.activate_miner(
        0,
        &operator(2),
        MIN_MINER_BOND,
        MIN_MINER_BOND,
        MAX_MINER_BOND,
        &identity_binding(40),
        CAPACITY,
        commitment(30),
    )
    .unwrap();
    let validator = reg
        .register_validator(0, MIN_MINER_BOND, MIN_MINER_BOND, CAPACITY, operator(3).role, commitment(28))
        .unwrap();
    assert_eq!(validator, 0);
    reg.set_validator_identity_commitments(
        operator(3),
        0,
        Some(commitment(122)),
        Some(commitment(123)),
        bundle(60),
        SignatureMode::HybridDilithium,
        identity_witness(60),
        CAPACITY,
    )
    .unwrap();
    reg
}

fn identity_binding(seed: u8) -> IdentityBinding {
    let w = identity_witness(seed);
    IdentityBinding { challenge: w.challenge, bindings: w.bindings, mode: SignatureMode::HybridDilithium }
}

fn request(request_id: u64) -> ChainInferenceRequest {
    ChainInferenceRequest {
        request_id,
        user_commitment: operator(4).role,
        subnet_id: 0,
        assignment_commitment: commitment(80),
        input_commitment: commitment(1),
        terms_commitment: commitment(81),
        timing_commitment: commitment(82),
        status: InferenceRequestStatus::Pending,
    }
}

fn request_inference(reg: &mut ChainRegistry, request_id: u64) {
    reg.next_request_id = request_id;
    reg.open_inference_request(request(request_id), 0, 0, 1_000).unwrap();
}

fn valid_submission(request_id: u64, now: u64) -> InferenceProofSubmission {
    InferenceProofSubmission {
        request_id,
        subnet_id: 0,
        miner_id: 0,
        validator_id: 0,
        input_commitment: commitment(1),
        output_commitment: commitment(2),
        model_commitment: commitment(10),
        proof_commitment: commitment(11),
        proof_system: ProofSystem::RiscZeroStark,
        proof_size_bytes: TARGET_PROOF_SIZE_MIN_BYTES,
        verification_latency_ms: 10,
        submitted_at: now,
    }
}

fn envelope() -> ProofEnvelopeWitness {
    ProofEnvelopeWitness {
        journal_commitment: commitment(12),
        image_id: commitment(13),
        verifier_supports_proof_system: true,
        transcript_commitment: commitment(12),
    }
}

fn witness() -> SettlementWitness {
    SettlementWitness {
        assignment_commitment: commitment(80),
        envelope: envelope(),
        audit_commitment: commitment(90),
        request_user: operator(4),
        miner_operator: operator(2),
        validator_operator: operator(3),
        terms: InferenceRequestTerms { payment: 1_000, validator_fee_bps: 250, treasury_fee_bps: 50 },
        terms_commitment: commitment(81),
        miner_bond_commitments: CapitalCommitments { current: commitment(30), slashed: commitment(32) },
        validator_stake_commitments: CapitalCommitments {
            current: commitment(31),
            slashed: commitment(33),
        },
    }
}

fn rules() -> SettlementRules {
    SettlementRules {
        bounds: SubmissionBounds {
            min_proof_size_bytes: TARGET_PROOF_SIZE_MIN_BYTES,
            max_proof_size_bytes: TARGET_PROOF_SIZE_MAX_BYTES,
            max_verification_latency_ms: TARGET_VERIFICATION_MS,
            max_proof_submission_age_blocks: 10,
        },
        min_invalid_proof_slash_bps: MIN_INVALID_PROOF_SLASH_BPS,
        max_invalid_proof_slash_bps: MAX_INVALID_PROOF_SLASH_BPS,
        min_miner_bond: MIN_MINER_BOND,
        min_validator_stake: MIN_MINER_BOND,
    }
}

fn counts(pending: u64, settled: u64, rejected: u64) -> ChainRequestStatusCounts {
    ChainRequestStatusCounts { pending, settled, cancelled: 0, rejected, expired: 0 }
}

#[test]
fn public_subnet_view_redacts_owner_and_economic_policy() {
    let reg = register_active_miner_and_validator();
    assert_eq!(
        reg.public_subnet(0),
        Some(ChainPublicSubnet {
            id: 0,
            domain: SubnetDomain::Code,
            proof_system: ProofSystem::RiscZeroStark,
            active: true,
        })
    );
    assert_eq!(reg.public_subnet(1), None);
}

#[test]
fn public_registry_views_redact_operator_capital_and_model_commitments() {
    let mut reg = register_active_miner_and_validator();
    assert_eq!(
        reg.public_miner(0),
        Some(ChainPublicMiner {
            id: 0,
            subnet_id: 0,
            proof_system: ProofSystem::RiscZeroStark,
            status: PublicRegistryStatus::Active,
        })
    );
    assert_eq!(
        reg.public_validator(0),
        Some(ChainPublicValidator { id: 0, subnet_id: 0, status: PublicRegistryStatus::Active })
    );
    let miner = *reg.miners.get(&0).unwrap();
    reg.miners.insert(0, ChainMiner { status: RegistryStatus::Exiting { exit_available_at: 20 }, ..miner });
    assert_eq!(reg.public_miner(0).unwrap().status, PublicRegistryStatus::Exiting);
    let validator = *reg.validators.get(&0).unwrap();
    reg.validators.insert(
        0,
        ChainValidator { status: RegistryStatus::Exiting { exit_available_at: 20 }, ..validator },
    );
    assert_eq!(reg.public_validator(0).unwrap().status, PublicRegistryStatus::Exiting);
    assert_eq!(reg.public_miner(1), None);
    assert_eq!(reg.public_validator(1), None);
}

#[test]
fn request_inference_escrows_payment() {
    let mut reg = register_active_miner_and_validator();
    request_inference(&mut reg, 7);
    assert_eq!(reg.requests.get(&7).unwrap().status, InferenceRequestStatus::Pending);
    assert_eq!(reg.next_request_id, 8);
    assert_eq!(reg.pending_miner_requests.get(&0), Some(&1));
    assert_eq!(reg.pending_validator_requests.get(&0), Some(&1));
    assert_eq!(reg.accounting().total_inference_escrowed, 1_000);
    assert_eq!(reg.accounting().total_inference_refunded, 0);
    assert_eq!(reg.request_status_counts(), counts(1, 0, 0));
    assert_eq!(
        reg.public_inference_request(7),
        Some(ChainPublicInferenceRequest {
            request_id: 7,
            subnet_id: 0,
            status: InferenceRequestStatus::Pending,
        })
    );
}

#[test]
fn request_inference_rejects_non_next_request_id() {
    let mut reg = register_active_miner_and_validator();
    reg.next_request_id = 7;
    assert_eq!(
        reg.open_inference_request(request(8), 0, 0, 1_000),
        Err(ChainRuleError::InvalidRequestId)
    );
    assert_eq!(reg.request_status_counts(), counts(0, 0, 0));
    assert_eq!(reg.next_request_id, 7);
}

#[test]
fn submit_proof_records_commitments_for_active_participants() {
    let mut reg = register_active_miner_and_validator();
    request_inference(&mut reg, 42);
    let settled =
        reg.submit_proof(&valid_submission(42, 5), &witness(), VerificationOutcome::Valid, 5, &rules());
    assert_eq!(
        settled,
        Ok(ProofSettlement::Settled { miner_payment: 970, validator_fee: 25, treasury_fee: 5 })
    );
    let record = *reg.proof_records.get(&42).unwrap();
    assert_eq!(record.assignment_commitment, commitment(80));
    assert_eq!(record.audit_commitment, commitment(90));
    assert_eq!(
        reg.public_proof_record(42),
        Some(ChainPublicProofRecord {
            request_id: 42,
            subnet_id: 0,
            proof_system: ProofSystem::RiscZeroStark,
        })
    );
    assert_eq!(reg.public_inference_request(42).unwrap().status, InferenceRequestStatus::Settled);
    assert_eq!(reg.pending_miner_requests.get(&0), None);
    assert_eq!(reg.pending_validator_requests.get(&0), None);
    assert_eq!(reg.request_status_counts(), counts(0, 1, 0));
    assert_eq!(
        reg.accounting(),
        ChainAccounting {
            total_inference_escrowed: 1_000,
            total_miner_payouts: 970,
            total_validator_fees: 25,
            total_treasury_fees: 5,
            total_inference_refunded: 0,
            legacy_migration_failures: 0,
        }
    );
    assert_eq!(reg.miner_bonds.get(&0), Some(&MIN_MINER_BOND));
    assert_eq!(reg.total_burned, REGISTRATION_BURNED);
}

#[test]
fn verifier_rejection_slashes_and_refunds_request() {
    let mut reg = register_active_miner_and_validator();
    request_inference(&mut reg, 48);
    let rejected = reg.submit_proof(
        &valid_submission(48, 1),
        &witness(),
        VerificationOutcome::Invalid { slash_bps: 1_000 },
        1,
        &rules(),
    );
    match rejected {
        Ok(ProofSettlement::Rejected { refund, miner_slash, validator_slash }) => {
            assert_eq!(refund, 1_000);
            assert_eq!(miner_slash.burned, 10_000_000_000);
            assert_eq!(validator_slash.total_burned, REGISTRATION_BURNED + 20_000_000_000);
        },
        other => panic!("unexpected outcome {:?}", other),
    }
    assert!(reg.proof_records.get(&48).is_none());
    assert_eq!(reg.requests.get(&48).unwrap().status, InferenceRequestStatus::Rejected);
    assert_eq!(reg.pending_miner_requests.get(&0), None);
    assert_eq!(reg.pending_validator_requests.get(&0), None);
    assert_eq!(reg.accounting().total_inference_refunded, 1_000);
    assert_eq!(reg.request_status_counts(), counts(0, 0, 1));
    let miner = *reg.miners.get(&0).unwrap();
    assert_eq!(miner.status, RegistryStatus::Slashed);
    assert_eq!(miner.bond_commitment, commitment(32));
    assert_eq!(reg.miner_bonds.get(&0), Some(&90_000_000_000));
    let validator = *reg.validators.get(&0).unwrap();
    assert_eq!(validator.status, RegistryStatus::Slashed);
    assert_eq!(validator.stake_commitment, commitment(33));
    assert_eq!(reg.validator_stakes.get(&0), Some(&90_000_000_000));
    assert_eq!(reg.total_burned, REGISTRATION_BURNED + 20_000_000_000);
    assert!(reg.active_miners.get(&0).unwrap().is_empty());
    assert!(reg.active_validators.get(&0).unwrap().is_empty());
}

#[test]
fn verifier_error_fails_closed_without_settlement_slash_or_refund_side_effects() {
    let mut reg = register_active_miner_and_validator();
    request_inference(&mut reg, 51);
    assert_eq!(
        reg.submit_proof(&valid_submission(51, 0), &witness(), VerificationOutcome::Error, 0, &rules()),
        Err(ChainRuleError::VerifierError)
    );
    assert!(reg.proof_records.get(&51).is_none());
    assert_eq!(reg.requests.get(&51).unwrap().status, InferenceRequestStatus::Pending);
    assert_eq!(reg.pending_miner_requests.get(&0), Some(&1));
    assert_eq!(reg.request_status_counts(), counts(1, 0, 0));
    assert_eq!(reg.miner_bonds.get(&0), Some(&MIN_MINER_BOND));
    assert_eq!(reg.validator_stakes.get(&0), Some(&MIN_MINER_BOND));
    assert_eq!(reg.miners.get(&0).unwrap().status, RegistryStatus::Active);
    assert_eq!(reg.total_burned, REGISTRATION_BURNED);
    assert_eq!(reg.accounting().total_inference_refunded, 0);
    assert_eq!(reg.accounting().total_miner_payouts, 0);
}

#[test]
fn submit_proof_rejects_duplicate_wrong_validator_or_model() {
    let mut reg = register_active_miner_and_validator();
    request_inference(&mut reg, 45);
    let mut wrong_model = valid_submission(45, 0);
    wrong_model.model_commitment = commitment(99);
    assert_eq!(
        reg.submit_proof(&wrong_model, &witness(), VerificationOutcome::Valid, 0, &rules()),
        Err(ChainRuleError::ModelCommitmentMismatch)
    );
    let wrong_validator = SettlementWitness { validator_operator: operator(9), ..witness() };
    assert_eq!(
        reg.submit_proof(&valid_submission(45, 0), &wrong_validator, VerificationOutcome::Valid, 0, &rules()),
        Err(ChainRuleError::NotValidatorOperator)
    );
    assert!(reg
        .submit_proof(&valid_submission(45, 0), &witness(), VerificationOutcome::Valid, 0, &rules())
        .is_ok());
    assert_eq!(
        reg.submit_proof(&valid_submission(45, 0), &witness(), VerificationOutcome::Valid, 0, &rules()),
        Err(ChainRuleError::DuplicateProof)
    );
}

#[test]
fn submit_proof_rejects_future_or_expired_timestamp() {
    let mut reg = register_active_miner_and_validator();
    request_inference(&mut reg, 60);
    assert_eq!(
        reg.submit_proof(&valid_submission(60, 21), &witness(), VerificationOutcome::Valid, 20, &rules()),
        Err(ChainRuleError::ProofSubmittedFromFuture)
    );
    assert_eq!(
        reg.submit_proof(&valid_submission(60, 9), &witness(), VerificationOutcome::Valid, 20, &rules()),
        Err(ChainRuleError::ProofSubmissionExpired)
    );
    assert_eq!(reg.request_status_counts(), counts(1, 0, 0));
}

#[test]
fn submit_proof_rejects_latency_or_missing_commitment() {
    let mut reg = register_active_miner_and_validator();
    request_inference(&mut reg, 43);
    let mut slow = valid_submission(43, 0);
    slow.verification_latency_ms = TARGET_VERIFICATION_MS + 1;
    assert_eq!(
        reg.submit_proof(&slow, &witness(), VerificationOutcome::Valid, 0, &rules()),
        Err(ChainRuleError::LatencyExceeded)
    );
    let mut missing = valid_submission(43, 0);
    missing.output_commitment = [0; 32];
    assert_eq!(
        reg.submit_proof(&missing, &witness(), VerificationOutcome::Valid, 0, &rules()),
        Err(ChainRuleError::MissingCommitment)
    );
}

#[test]
fn rejected_proof_refund_requires_terms_witness() {
    let mut reg = register_active_miner_and_validator();
    request_inference(&mut reg, 63);
    let invalid = VerificationOutcome::Invalid { slash_bps: 1_000 };
    let wrong_terms = SettlementWitness {
        terms: InferenceRequestTerms { payment: 999, validator_fee_bps: 250, treasury_fee_bps: 50 },
        terms_commitment: commitment(83),
        ..witness()
    };
    assert_eq!(
        reg.submit_proof(&valid_submission(63, 0), &wrong_terms, invalid, 0, &rules()),
        Err(ChainRuleError::RequestMismatch)
    );
    let wrong_user = SettlementWitness { request_user: operator(7), ..witness() };
    assert_eq!(
        reg.submit_proof(&valid_submission(63, 0), &wrong_user, invalid, 0, &rules()),
        Err(ChainRuleError::NotRequestOwner)
    );
    let too_small = VerificationOutcome::Invalid { slash_bps: MIN_INVALID_PROOF_SLASH_BPS - 1 };
    assert_eq!(
        reg.submit_proof(&valid_submission(63, 0), &witness(), too_small, 0, &rules()),
        Err(ChainRuleError::InvalidSlashPercent)
    );
    assert_eq!(reg.miner_bonds.get(&0), Some(&MIN_MINER_BOND));
    assert_eq!(reg.request_status_counts(), counts(1, 0, 0));
}

#[test]
fn submit_proof_accepts_legacy_account_commitments() {
    let mut reg = register_active_miner_and_validator();
    request_inference(&mut reg, 44);
    let miner = *reg.miners.get(&0).unwrap();
    reg.miners.insert(0, ChainMiner { operator_commitment: operator(2).account, ..miner });
    assert!(reg
        .submit_proof(&valid_submission(44, 0), &witness(), VerificationOutcome::Valid, 0, &rules())
        .is_ok());
}

#[test]
fn settled_request_cannot_be_rejected_later() {
    let mut reg = register_active_miner_and_validator();
    request_inference(&mut reg, 46);
    reg.submit_proof(&valid_submission(46, 0), &witness(), VerificationOutcome::Valid, 0, &rules())
        .unwrap();
    assert_eq!(
        reg.submit_proof(
            &valid_submission(46, 0),
            &witness(),
            VerificationOutcome::Invalid { slash_bps: 1_000 },
            0,
            &rules()
        ),
        Err(ChainRuleError::DuplicateProof)
    );
    assert_eq!(reg.request_status_counts(), counts(0, 1, 0));
}

#[test]
fn identity_commitments_are_operator_gated_and_commitment_only() {
    let mut reg = register_active_miner_and_validator();
    assert_eq!(
        reg.set_miner_identity_commitments(
            operator(3),
            0,
            Some(commitment(20)),
            None,
            bundle(40),
            SignatureMode::HybridDilithium,
            identity_witness(40),
            CAPACITY,
        ),
        Err(ChainRuleError::NotOperator)
    );
    assert_eq!(
        reg.set_validator_identity_commitments(
            operator(3),
            0,
            Some([0; 32]),
            None,
            bundle(60),
            SignatureMode::HybridDilithium,
            identity_witness(60),
            CAPACITY,
        ),
        Err(ChainRuleError::MissingCommitment)
    );
    assert_eq!(
        reg.public_miner_identity(0),
        Some(ChainPublicIdentity {
            participant_id: 0,
            has_shielded_identity_commitment: true,
            has_endpoint_commitment: true,
            signature_commitment_recorded: true,
            signature_challenge_bound: true,
            signature_verified: false,
            challenge_available: true,
        })
    );
    assert_eq!(reg.public_validator_identity(0).unwrap().has_endpoint_commitment, true);
}

#[test]
fn identity_signature_commitments_are_not_reported_as_verified() {
    let reg = register_active_miner_and_validator();
    assert!(!reg.public_miner_identity(0).unwrap().signature_verified);
    assert!(!reg.public_validator_identity(0).unwrap().signature_verified);
    let mut reg = reg;
    let miner = *reg.miners.get(&0).unwrap();
    reg.miners.insert(5, ChainMiner { id: 5, ..miner });
    let unrecorded = reg.public_miner_identity(5).unwrap();
    assert!(!unrecorded.signature_commitment_recorded && !unrecorded.challenge_available);
    assert_eq!(ChainRegistry::new().public_miner_identity(5), None);
}

#[test]
fn identity_signature_bundle_must_bind_current_challenge() {
    let mut reg = register_active_miner_and_validator();
    let stale = IdentityUpdateWitness {
        bindings: SignatureBindings { classical: commitment(61), post_quantum: commitment(99) },
        ..identity_witness(60)
    };
    assert_eq!(
        reg.set_validator_identity_commitments(
            operator(3),
            0,
            Some(commitment(122)),
            None,
            bundle(60),
            SignatureMode::HybridDilithium,
            stale,
            CAPACITY,
        ),
        Err(ChainRuleError::InvalidSignatureBundle)
    );
}

#[test]
fn validator_cannot_exit_with_pending_proof_assignment() {
    let mut reg = register_active_miner_and_validator();
    request_inference(&mut reg, 41);
    assert_eq!(
        reg.set_validator_identity_commitments(
            operator(3),
            0,
            None,
            None,
            bundle(60),
            SignatureMode::HybridDilithium,
            identity_witness(60),
            CAPACITY,
        ),
        Err(ChainRuleError::PendingAssignedRequests)
    );
}

#[test]
fn public_next_route_availability_does_not_expose_participant_assignment_or_future_oracle() {
    let mut reg = register_active_miner_and_validator();
    reg.next_request_id = 42;
    assert_eq!(
        reg.next_route_availability(0, MIN_MINER_BOND),
        ChainRouteAvailability { request_id: 42, subnet_id: 0, available: true }
    );
    let miner = *reg.miners.get(&0).unwrap();
    reg.miners.insert(0, ChainMiner { status: RegistryStatus::Exiting { exit_available_at: 20 }, ..miner });
    assert_eq!(
        reg.next_route_availability(0, MIN_MINER_BOND),
        ChainRouteAvailability { request_id: 42, subnet_id: 0, available: false }
    );
}

#[test]
fn route_requires_validator_stake_record() {
    let mut reg = register_active_miner_and_validator();
    assert!(reg.next_route_availability(0, MIN_MINER_BOND).available);
    assert!(!reg.next_route_availability(0, MIN_MINER_BOND + 1).available);
    reg.validator_stakes.remove(&0);
    assert!(!reg.next_route_availability(0, MIN_MINER_BOND).available);
    assert!(!reg.next_route_availability(1, MIN_MINER_BOND).available);
}

fn closure_witness(user: u8) -> ClosureWitness {
    ClosureWitness {
        assignment_commitment: commitment(80),
        timing_commitment: commitment(82),
        created_at: 0,
        request_user: operator(user),
        terms: InferenceRequestTerms { payment: 1_000, validator_fee_bps: 250, treasury_fee_bps: 50 },
        terms_commitment: commitment(81),
    }
}

fn miner_capital() -> CapitalCommitments {
    CapitalCommitments { current: commitment(30), slashed: commitment(32) }
}

fn validator_capital() -> CapitalCommitments {
    CapitalCommitments { current: commitment(31), slashed: commitment(33) }
}

#[test]
fn cancel_inference_rejects_non_owner_or_settled_request() {
    let mut reg = register_active_miner_and_validator();
    request_inference(&mut reg, 9);
    assert_eq!(
        reg.cancel_inference(9, 0, 0, &closure_witness(3), 100, 10),
        Err(ChainRuleError::NotRequestOwner)
    );
    reg.submit_proof(&valid_submission(9, 0), &witness(), VerificationOutcome::Valid, 0, &rules())
        .unwrap();
    assert_eq!(
        reg.cancel_inference(9, 0, 0, &closure_witness(4), 100, 10),
        Err(ChainRuleError::RequestAlreadySettled)
    );
}

#[test]
fn cancel_inference_refunds_after_delay() {
    let mut reg = register_active_miner_and_validator();
    request_inference(&mut reg, 12);
    assert_eq!(
        reg.cancel_inference(12, 0, 0, &closure_witness(4), 9, 10),
        Err(ChainRuleError::RequestCancelUnavailable)
    );
    assert_eq!(reg.cancel_inference(12, 0, 0, &closure_witness(4), 10, 10), Ok(1_000));
    assert_eq!(reg.requests.get(&12).unwrap().status, InferenceRequestStatus::Cancelled);
    assert_eq!(
        reg.request_status_counts(),
        ChainRequestStatusCounts { pending: 0, settled: 0, cancelled: 1, rejected: 0, expired: 0 }
    );
    assert_eq!(reg.pending_miner_requests.get(&0), None);
    assert_eq!(reg.accounting().total_inference_refunded, 1_000);
}

#[test]
fn expire_inference_closes_unproved_request() {
    let mut reg = register_active_miner_and_validator();
    request_inference(&mut reg, 13);
    let late_timing = ClosureWitness { timing_commitment: commitment(84), ..closure_witness(4) };
    assert_eq!(
        reg.expire_inference(13, 0, 0, &late_timing, 50, 10),
        Err(ChainRuleError::RequestMismatch)
    );
    let wrong_route = ClosureWitness { assignment_commitment: commitment(85), ..closure_witness(4) };
    assert_eq!(
        reg.expire_inference(13, 0, 0, &wrong_route, 50, 10),
        Err(ChainRuleError::AssignmentMismatch)
    );
    assert_eq!(reg.expire_inference(13, 0, 0, &closure_witness(4), 50, 10), Ok(1_000));
    assert_eq!(
        reg.request_status_counts(),
        ChainRequestStatusCounts { pending: 0, settled: 0, cancelled: 0, rejected: 0, expired: 1 }
    );
    assert_eq!(
        reg.submit_proof(&valid_submission(13, 50), &witness(), VerificationOutcome::Valid, 50, &rules()),
        Err(ChainRuleError::RequestAlreadySettled)
    );
}

#[test]
fn root_slash_burns_held_miner_bond() {
    let mut reg = register_active_miner_and_validator();
    let outcome = reg.slash_miner(0, &operator(2), 1_000, &rules(), &miner_capital()).unwrap();
    assert_eq!(outcome.burned, 10_000_000_000);
    let miner = *reg.miners.get(&0).unwrap();
    assert_eq!(miner.bond_commitment, commitment(32));
    assert_eq!(miner.status, RegistryStatus::Slashed);
    assert_eq!(reg.miner_bonds.get(&0), Some(&90_000_000_000));
    assert_eq!(reg.total_burned, REGISTRATION_BURNED + 10_000_000_000);
    assert!(reg.active_miners.get(&0).unwrap().is_empty());
}

#[test]
fn root_slash_burns_held_validator_stake() {
    let mut reg = register_active_miner_and_validator();
    reg.slash_validator(0, &operator(3), 1_000, &rules(), &validator_capital()).unwrap();
    let validator = *reg.validators.get(&0).unwrap();
    assert_eq!(validator.stake_commitment, commitment(33));
    assert_eq!(validator.status, RegistryStatus::Slashed);
    assert_eq!(reg.validator_stakes.get(&0), Some(&90_000_000_000));
    assert!(reg.active_validators.get(&0).unwrap().is_empty());
}

#[test]
fn root_slash_rejects_pending_assigned_participants() {
    let mut reg = register_active_miner_and_validator();
    request_inference(&mut reg, 7);
    assert_eq!(
        reg.slash_miner(0, &operator(2), 1_000, &rules(), &miner_capital()),
        Err(ChainRuleError::PendingAssignedRequests)
    );
    assert_eq!(
        reg.slash_validator(0, &operator(3), 1_000, &rules(), &validator_capital()),
        Err(ChainRuleError::PendingAssignedRequests)
    );
    reg.submit_proof(&valid_submission(7, 0), &witness(), VerificationOutcome::Valid, 0, &rules())
        .unwrap();
    assert!(reg.slash_miner(0, &operator(2), 1_000, &rules(), &miner_capital()).is_ok());
    assert!(reg.slash_validator(0, &operator(3), 1_000, &rules(), &validator_capital()).is_ok());
}

#[test]
fn failed_root_slashes_preserve_locked_capital_status_and_routing() {
    let mut reg = register_active_miner_and_validator();
    assert_eq!(
        reg.slash_miner(0, &operator(2), 99, &rules(), &miner_capital()),
        Err(ChainRuleError::InvalidSlashPercent)
    );
    assert_eq!(
        reg.slash_miner(0, &operator(9), 1_000, &rules(), &miner_capital()),
        Err(ChainRuleError::NotOperator)
    );
    assert_eq!(
        reg.slash_validator(88, &operator(3), 1_000, &rules(), &validator_capital()),
        Err(ChainRuleError::UnknownValidator)
    );
    assert_eq!(reg.miner_bonds.get(&0), Some(&MIN_MINER_BOND));
    assert_eq!(reg.miners.get(&0).unwrap().status, RegistryStatus::Active);
    assert_eq!(reg.active_miners.get(&0).unwrap(), &vec![0]);
    assert_eq!(reg.total_burned, REGISTRATION_BURNED);
}

#[test]
fn registration_numbers_participants_and_burns() {
    let mut reg = register_active_miner_and_validator();
    assert_eq!(reg.total_burned, REGISTRATION_BURNED);
    assert_eq!(reg.miners.get(&0).unwrap().status, RegistryStatus::Active);
    assert_eq!(reg.miners.get(&0).unwrap().bond_commitment, commitment(30));
    assert_eq!(reg.validators.get(&0).unwrap().status, RegistryStatus::Active);
    assert_eq!(reg.miner_bonds.get(&0), Some(&MIN_MINER_BOND));
    assert_eq!(
        reg.create_subnet(SubnetDomain::Vision, ProofSystem::Mock, commitment(1), commitment(5), 0),
        Err(ChainRuleError::UnsupportedProofSystem)
    );
    assert_eq!(
        reg.register_miner(0, [0; 32], ProofSystem::RiscZeroStark, operator(5).role, commitment(29), 0),
        Err(ChainRuleError::MissingCommitment)
    );
    assert_eq!(
        reg.register_miner(0, commitment(11), ProofSystem::Stark, operator(5).role, commitment(29), 0),
        Err(ChainRuleError::ProofSystemMismatch)
    );
    assert_eq!(
        reg.register_miner(3, commitment(11), ProofSystem::Stark, operator(5).role, commitment(29), 0),
        Err(ChainRuleError::UnknownSubnet)
    );
    assert_eq!(
        reg.register_miner(0, commitment(11), ProofSystem::RiscZeroStark, operator(5).role, commitment(29), 0),
        Ok(1)
    );
    assert_eq!(
        reg.register_validator(0, MIN_MINER_BOND - 1, MIN_MINER_BOND, CAPACITY, operator(6).role, commitment(28)),
        Err(ChainRuleError::InvalidStake)
    );
    assert_eq!(
        reg.register_validator(0, MIN_MINER_BOND, MIN_MINER_BOND, 1, operator(6).role, commitment(28)),
        Err(ChainRuleError::TooManyActiveValidators)
    );
    assert_eq!(
        reg.register_validator(0, MIN_MINER_BOND, MIN_MINER_BOND, CAPACITY, operator(6).role, commitment(28)),
        Ok(1)
    );
}

#[test]
fn activate_miner_rejects_bad_operator_and_bad_bond() {
    let mut reg = register_active_miner_and_validator();
    let miner = reg
        .register_miner(0, commitment(11), ProofSystem::RiscZeroStark, operator(5).role, commitment(29), 0)
        .unwrap();
    assert_eq!(
        reg.activate_miner(miner, &operator(6), MIN_MINER_BOND, MIN_MINER_BOND, MAX_MINER_BOND, &identity_binding(40), CAPACITY, commitment(30)),
        Err(ChainRuleError::NotOperator)
    );
    assert_eq!(
        reg.activate_miner(miner, &operator(5), MIN_MINER_BOND - 1, MIN_MINER_BOND, MAX_MINER_BOND, &identity_binding(40), CAPACITY, commitment(30)),
        Err(ChainRuleError::InvalidBond)
    );
    assert_eq!(
        reg.activate_miner(miner, &operator(5), MIN_MINER_BOND, MIN_MINER_BOND, MAX_MINER_BOND, &identity_binding(40), CAPACITY, commitment(30)),
        Err(ChainRuleError::MissingSignatureBundle)
    );
    assert_eq!(reg.miners.get(&miner).unwrap().status, RegistryStatus::Pending);
}

#[test]
fn activate_miner_rejects_duplicate_activation() {
    let mut reg = register_active_miner_and_validator();
    assert_eq!(
        reg.activate_miner(0, &operator(2), MIN_MINER_BOND, MIN_MINER_BOND, MAX_MINER_BOND, &identity_binding(40), CAPACITY, commitment(30)),
        Err(ChainRuleError::InvalidMinerStatus)
    );
}

#[test]
fn slashed_miner_can_exit_with_remaining_bond() {
    let mut reg = register_active_miner_and_validator();
    reg.slash_miner(0, &operator(2), 1_000, &rules(), &miner_capital()).unwrap();
    assert_eq!(reg.deactivate_miner(0, &operator(2), 0, 20, commitment(34)), Ok(()));
    assert_eq!(
        reg.miners.get(&0).unwrap().status,
        RegistryStatus::Exiting { exit_available_at: 20 }
    );
    assert_eq!(
        reg.withdraw_miner_bond(0, &operator(2), 19, commitment(35)),
        Err(ChainRuleError::MinerExitUnavailable)
    );
    assert_eq!(reg.withdraw_miner_bond(0, &operator(2), 20, commitment(35)), Ok(90_000_000_000));
    assert_eq!(reg.miners.get(&0).unwrap().status, RegistryStatus::Disabled);
    assert_eq!(reg.miner_bonds.get(&0), None);
}

#[test]
fn slashed_validator_can_exit_with_remaining_stake() {
    let mut reg = register_active_miner_and_validator();
    reg.slash_validator(0, &operator(3), 1_000, &rules(), &validator_capital()).unwrap();
    assert_eq!(reg.deactivate_validator(0, &operator(3), 0, 20, commitment(36)), Ok(()));
    assert_eq!(
        reg.withdraw_validator_stake(0, &operator(3), 19, commitment(37)),
        Err(ChainRuleError::ValidatorExitUnavailable)
    );
    assert_eq!(reg.withdraw_validator_stake(0, &operator(3), 20, commitment(37)), Ok(90_000_000_000));
    assert_eq!(reg.validators.get(&0).unwrap().status, RegistryStatus::Disabled);
    assert_eq!(reg.validator_stakes.get(&0), None);
}

#[test]
fn exiting_miner_takes_no_new_requests() {
    let mut reg = register_active_miner_and_validator();
    assert_eq!(reg.deactivate_miner(0, &operator(2), 0, 20, commitment(34)), Ok(()));
    assert!(reg.active_miners.get(&0).unwrap().is_empty());
    reg.next_request_id = 3;
    assert_eq!(
        reg.open_inference_request(request(3), 0, 0, 1_000),
        Err(ChainRuleError::NotActive)
    );
}

fn request_params() -> InferenceRequestParams {
    InferenceRequestParams {
        subnet_id: 0,
        miner_id: 0,
        validator_id: 0,
        input_commitment: commitment(1),
        assignment_blinding: commitment(70),
        timing_blinding: commitment(71),
        terms_blinding: commitment(72),
        payment: 1_000,
        validator_fee_bps: 250,
        treasury_fee_bps: 50,
    }
}

#[test]
fn routed_request_opens_on_its_route() {
    let mut reg = register_active_miner_and_validator();
    reg.next_request_id = 42;
    let route = reg.route_inference_request(42, &request_params(), MIN_MINER_BOND).unwrap();
    assert_eq!(route, ChainAssignment { request_id: 42, subnet_id: 0, miner_id: 0, validator_id: 0 });
    assert_eq!(reg.open_inference_request(request(42), route.miner_id, route.validator_id, 1_000), Ok(()));
    assert_eq!(
        reg.route_inference_request(42, &request_params(), MIN_MINER_BOND),
        Err(ChainRuleError::DuplicateRequest)
    );
    assert_eq!(
        reg.route_inference_request(44, &request_params(), MIN_MINER_BOND),
        Err(ChainRuleError::InvalidRequestId)
    );
}

#[test]
fn routing_rejects_public_participant_ids_and_bad_terms() {
    let mut reg = register_active_miner_and_validator();
    reg.next_request_id = 52;
    let public_ids = InferenceRequestParams { miner_id: 10, ..request_params() };
    assert_eq!(
        reg.route_inference_request(52, &public_ids, MIN_MINER_BOND),
        Err(ChainRuleError::RouteAssignmentMustBeHidden)
    );
    let no_payment = InferenceRequestParams { payment: 0, ..request_params() };
    assert_eq!(
        reg.route_inference_request(52, &no_payment, MIN_MINER_BOND),
        Err(ChainRuleError::InvalidPayment)
    );
    let bad_split = InferenceRequestParams { validator_fee_bps: 9_000, treasury_fee_bps: 1_001, ..request_params() };
    assert_eq!(
        reg.route_inference_request(52, &bad_split, MIN_MINER_BOND),
        Err(ChainRuleError::InvalidFeeSplit)
    );
    let unblinded = InferenceRequestParams { timing_blinding: [0; 32], ..request_params() };
    assert_eq!(
        reg.route_inference_request(52, &unblinded, MIN_MINER_BOND),
        Err(ChainRuleError::MissingCommitment)
    );
}

#[test]
fn routing_skips_self_validation_operator() {
    let mut reg = register_active_miner_and_validator();
    let validator = *reg.validators.get(&0).unwrap();
    reg.validators.insert(0, ChainValidator { operator_commitment: operator(2).role, ..validator });
    assert_eq!(
        reg.route_inference_request(0, &request_params(), MIN_MINER_BOND),
        Err(ChainRuleError::NoRouteAvailable)
    );
}

#[test]
fn invalid_proof_challenge_slashes_miner_without_validator_self_slash() {
    let mut reg = register_active_miner_and_validator();
    request_inference(&mut reg, 49);
    let stake_commitment = reg.validators.get(&0).unwrap().stake_commitment;
    let challenged = reg.challenge_proof(
        &valid_submission(49, 1),
        &witness(),
        VerificationOutcome::Invalid { slash_bps: 1_000 },
        1,
        &rules(),
    );
    match challenged {
        Ok(ProofSettlement::Challenged { refund, miner_slash }) => {
            assert_eq!(refund, 1_000);
            assert_eq!(miner_slash.remaining, 90_000_000_000);
        },
        other => panic!("unexpected outcome {:?}", other),
    }
    assert!(reg.proof_records.get(&49).is_none());
    assert_eq!(reg.requests.get(&49).unwrap().status, InferenceRequestStatus::Rejected);
    assert_eq!(reg.pending_miner_requests.get(&0), None);
    assert_eq!(reg.pending_validator_requests.get(&0), None);
    assert_eq!(reg.accounting().total_inference_refunded, 1_000);
    let miner = *reg.miners.get(&0).unwrap();
    assert_eq!(miner.bond_commitment, commitment(32));
    assert_eq!(miner.status, RegistryStatus::Slashed);
    let validator = *reg.validators.get(&0).unwrap();
    assert_eq!(validator.stake_commitment, stake_commitment);
    assert_eq!(validator.status, RegistryStatus::Active);
    assert_eq!(reg.validator_stakes.get(&0), Some(&MIN_MINER_BOND));
}

#[test]
fn valid_proof_challenge_is_rejected_without_state_changes() {
    let mut reg = register_active_miner_and_validator();
    request_inference(&mut reg, 50);
    assert_eq!(
        reg.challenge_proof(&valid_submission(50, 0), &witness(), VerificationOutcome::Valid, 0, &rules()),
        Err(ChainRuleError::ChallengeProofValid)
    );
    assert!(reg.proof_records.get(&50).is_none());
    assert_eq!(reg.requests.get(&50).unwrap().status, InferenceRequestStatus::Pending);
    assert_eq!(reg.pending_miner_requests.get(&0), Some(&1));
    assert_eq!(reg.pending_validator_requests.get(&0), Some(&1));
    assert_eq!(reg.miners.get(&0).unwrap().status, RegistryStatus::Active);
    assert_eq!(reg.validators.get(&0).unwrap().status, RegistryStatus::Active);
}

#[test]
fn submit_proof_rejects_unbound_transcript_commitment() {
    let mut reg = register_active_miner_and_validator();
    request_inference(&mut reg, 44);
    let unbound = SettlementWitness {
        envelope: ProofEnvelopeWitness { transcript_commitment: commitment(99), ..envelope() },
        ..witness()
    };
    assert_eq!(
        reg.submit_proof(&valid_submission(44, 0), &unbound, VerificationOutcome::Valid, 0, &rules()),
        Err(ChainRuleError::ProofTranscriptMismatch)
    );
    let unsupported = SettlementWitness {
        envelope: ProofEnvelopeWitness { verifier_supports_proof_system: false, ..envelope() },
        ..witness()
    };
    assert_eq!(
        reg.submit_proof(&valid_submission(44, 0), &unsupported, VerificationOutcome::Valid, 0, &rules()),
        Err(ChainRuleError::ProofSystemMismatch)
    );
    let no_image = SettlementWitness {
        envelope: ProofEnvelopeWitness { image_id: [0; 32], ..envelope() },
        ..witness()
    };
    assert_eq!(
        reg.submit_proof(&valid_submission(44, 0), &no_image, VerificationOutcome::Valid, 0, &rules()),
        Err(ChainRuleError::MissingCommitment)
    );
    assert_eq!(reg.requests.get(&44).unwrap().status, InferenceRequestStatus::Pending);
}

#[test]
fn registry_consistency_check_accepts_built_registry() {
    let mut reg = register_active_miner_and_validator();
    assert!(reg.registry_consistent(CAPACITY, CAPACITY, MIN_MINER_BOND));
    request_inference(&mut reg, 7);
    assert!(reg.registry_consistent(CAPACITY, CAPACITY, MIN_MINER_BOND));
    reg.submit_proof(&valid_submission(7, 0), &witness(), VerificationOutcome::Valid, 0, &rules())
        .unwrap();
    assert!(reg.registry_consistent(CAPACITY, CAPACITY, MIN_MINER_BOND));
}

#[test]
fn registry_consistency_check_rejects_bad_pending_counters() {
    let mut reg = register_active_miner_and_validator();
    reg.pending_miner_requests.insert(0, 0);
    assert!(!reg.registry_consistent(CAPACITY, CAPACITY, MIN_MINER_BOND));
    reg.pending_miner_requests.remove(&0);
    reg.pending_validator_requests.insert(9, 1);
    assert!(!reg.registry_consistent(CAPACITY, CAPACITY, MIN_MINER_BOND));
    reg.pending_validator_requests.remove(&9);
    let miner = *reg.miners.get(&0).unwrap();
    reg.miners.insert(0, ChainMiner { status: RegistryStatus::Exiting { exit_available_at: 5 }, ..miner });
    reg.active_miners.insert(0, vec![]);
    reg.pending_miner_requests.insert(0, 2);
    assert!(reg.registry_consistent(CAPACITY, CAPACITY, MIN_MINER_BOND));
    reg.miners.insert(0, ChainMiner { status: RegistryStatus::Disabled, ..miner });
    assert!(!reg.registry_consistent(CAPACITY, CAPACITY, MIN_MINER_BOND));
}

#[test]
fn registry_consistency_check_rejects_stale_indexes_and_counts() {
    let mut reg = register_active_miner_and_validator();
    reg.status_counts.pending = 1;
    assert!(!reg.registry_consistent(CAPACITY, CAPACITY, MIN_MINER_BOND));
    reg.status_counts.pending = 0;
    assert!(!reg.registry_consistent(CAPACITY, CAPACITY, MIN_MINER_BOND + 1));
    reg.active_miners.insert(0, vec![]);
    assert!(!reg.registry_consistent(CAPACITY, CAPACITY, MIN_MINER_BOND));
    assert!(reg.registry_consistent(0, CAPACITY, MIN_MINER_BOND));
    reg.active_miners.insert(0, vec![0, 5]);
    assert!(!reg.registry_consistent(CAPACITY, CAPACITY, MIN_MINER_BOND));
}

fn add_active_miner(reg: &mut ChainRegistry, operator_seed: u8) -> u64 {
    let miner = reg
        .register_miner(0, commitment(10), ProofSystem::RiscZeroStark, operator(operator_seed).role, commitment(29), 0)
        .unwrap();
    reg.set_miner_identity_commitments(
        operator(operator_seed),
        miner,
        Some(commitment(124)),
        None,
        bundle(40),
        SignatureMode::HybridDilithium,
        identity_witness(40),
        CAPACITY,
    )
    .unwrap();
    reg.activate_miner(
        miner,
        &operator(operator_seed),
        MIN_MINER_BOND,
        MIN_MINER_BOND,
        MAX_MINER_BOND,
        &identity_binding(40),
        CAPACITY,
        commitment(30),
    )
    .unwrap();
    miner
}

#[test]
fn rebuild_restores_lost_routing_indexes() {
    let mut reg = register_active_miner_and_validator();
    reg.active_miners.clear();
    reg.active_validators.clear();
    assert!(!reg.registry_consistent(CAPACITY, CAPACITY, MIN_MINER_BOND));
    assert_eq!(reg.rebuild_routing_indexes(CAPACITY, CAPACITY, MIN_MINER_BOND, 10, 20, 30), 0);
    assert_eq!(reg.active_miners.get(&0), Some(&vec![0]));
    assert_eq!(reg.active_validators.get(&0), Some(&vec![0]));
    assert_eq!(reg.migration_health().legacy_routing_index_failures, 0);
    assert!(reg.registry_consistent(CAPACITY, CAPACITY, MIN_MINER_BOND));
}

#[test]
fn rebuild_overflow_exits_idle_miners_and_counts_failures() {
    let mut reg = register_active_miner_and_validator();
    let second = add_active_miner(&mut reg, 5);
    assert_eq!(second, 1);
    assert_eq!(reg.rebuild_routing_indexes(1, CAPACITY, MIN_MINER_BOND, 10, 20, 30), 1);
    assert_eq!(reg.active_miners.get(&0), Some(&vec![0]));
    assert_eq!(reg.miners.get(&1).unwrap().status, RegistryStatus::Exiting { exit_available_at: 30 });
    assert_eq!(reg.miners.get(&0).unwrap().status, RegistryStatus::Active);
    assert_eq!(reg.migration_health().legacy_routing_index_failures, 1);
    assert!(reg.registry_consistent(1, CAPACITY, MIN_MINER_BOND));
}

#[test]
fn rebuild_offers_miners_with_pending_requests_first() {
    let mut reg = register_active_miner_and_validator();
    let second = add_active_miner(&mut reg, 5);
    reg.pending_miner_requests.insert(second, 1);
    assert_eq!(reg.rebuild_routing_indexes(1, CAPACITY, MIN_MINER_BOND, 10, 20, 30), 1);
    assert_eq!(reg.active_miners.get(&0), Some(&vec![1]));
    assert_eq!(reg.miners.get(&0).unwrap().status, RegistryStatus::Exiting { exit_available_at: 30 });
    assert_eq!(reg.miners.get(&1).unwrap().status, RegistryStatus::Active);
}
