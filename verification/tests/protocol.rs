use qubitum_protocol::{
    emission_after_halvings, halving_epoch, privacy_table, settle_inference_payment,
    signature_mode_for_year, AccountId, Commitment, EmissionAllocation, InferenceProofSubmission,
    InferenceRecord, InferenceSettlement, MinerBondPolicy, MinerRegistration, PrivacyElement,
    PrivacyElementKind, ProofSystem, ProtocolError, RegistryStatus, RewardSplit, SignatureMode,
    SubnetPolicy, ValidatorRegistration, Visibility, HALVING_INTERVAL_BLOCKS, MAX_MINER_BOND,
    MIN_INVALID_PROOF_SLASH_BPS, MIN_MINER_BOND, TARGET_PROOF_SIZE_MAX_BYTES,
    TARGET_PROOF_SIZE_MIN_BYTES, TARGET_VERIFICATION_MS,
};

fn commitment(seed: u8) -> Commitment {
    [seed; 32]
}

fn account(seed: u8) -> AccountId {
    [seed; 32]
}

#[test]
fn qubitum_reward_split_allocates_remainder_to_treasury() {
    let split = RewardSplit::qubitum();

    assert_eq!(
        split.allocate(101).unwrap(),
        EmissionAllocation {
            miner: 50,
            validator: 30,
            treasury: 21,
        }
    );
}

#[test]
fn reward_split_rejects_non_100_percent_total() {
    let split = RewardSplit {
        miner_bps: 5_000,
        validator_bps: 3_000,
        treasury_bps: 1_999,
    };

    assert_eq!(split.validate(), Err(ProtocolError::InvalidRewardSplit));
}

#[test]
fn miner_bond_policy_enforces_registration_bounds() {
    let policy = MinerBondPolicy::qubitum();

    assert_eq!(
        policy.validate_bond(MIN_MINER_BOND - 1),
        Err(ProtocolError::InvalidBond)
    );
    assert_eq!(policy.validate_bond(MIN_MINER_BOND), Ok(MIN_MINER_BOND));
    assert_eq!(policy.validate_bond(MAX_MINER_BOND), Ok(MAX_MINER_BOND));
    assert_eq!(
        policy.validate_bond(MAX_MINER_BOND + 1),
        Err(ProtocolError::InvalidBond)
    );
}

#[test]
fn miner_slashing_respects_invalid_proof_bounds() {
    let policy = MinerBondPolicy::qubitum();

    assert_eq!(
        policy.slash_amount(MIN_MINER_BOND, MIN_INVALID_PROOF_SLASH_BPS - 1),
        Err(ProtocolError::InvalidSlashPercent)
    );
    assert_eq!(
        policy
            .slash_amount(MIN_MINER_BOND, MIN_INVALID_PROOF_SLASH_BPS)
            .unwrap(),
        10_000_000_000
    );
}

#[test]
fn proof_submission_validates_commitments_size_latency_and_backend() {
    let policy = SubnetPolicy::qubitum();
    let submission = InferenceProofSubmission {
        request_id: 7,
        subnet_id: 1,
        miner_id: 2,
        validator_id: 3,
        input_commitment: commitment(1),
        output_commitment: commitment(2),
        model_commitment: commitment(3),
        proof_commitment: commitment(4),
        proof_system: ProofSystem::RiscZeroStark,
        proof_size_bytes: TARGET_PROOF_SIZE_MIN_BYTES,
        verification_latency_ms: TARGET_VERIFICATION_MS,
        submitted_at: 42,
    };

    assert!(submission.clone().validate_shape(policy).is_ok());

    let mut too_slow = submission.clone();
    too_slow.verification_latency_ms = TARGET_VERIFICATION_MS + 1;
    assert_eq!(
        too_slow.validate_shape(policy),
        Err(ProtocolError::LatencyExceeded)
    );

    let mut wrong_backend = submission;
    wrong_backend.proof_system = ProofSystem::Mock;
    assert_eq!(
        wrong_backend.validate_shape(policy),
        Err(ProtocolError::ProofSystemMismatch)
    );
}

#[test]
fn miner_and_validator_activation_set_active_status() {
    let miner = MinerRegistration {
        id: 1,
        operator: account(1),
        subnet_id: 0,
        model_commitment: commitment(2),
        proof_system: ProofSystem::RiscZeroStark,
        bond: MIN_MINER_BOND,
        status: RegistryStatus::Pending,
        shielded_identity_commitment: None,
        endpoint_commitment: Some(commitment(3)),
    };

    assert_eq!(
        miner.activate(MinerBondPolicy::qubitum()).unwrap().status,
        RegistryStatus::Active
    );

    let validator = ValidatorRegistration {
        id: 1,
        operator: account(4),
        staked: MIN_MINER_BOND,
        routing_subnets: vec![0],
        status: RegistryStatus::Pending,
    };

    assert_eq!(
        validator.activate(SubnetPolicy::qubitum()).unwrap().status,
        RegistryStatus::Active
    );
}

#[test]
fn valid_submission_can_be_recorded_without_raw_inputs_or_weights() {
    let submission = InferenceProofSubmission {
        request_id: 9,
        subnet_id: 4,
        miner_id: 5,
        validator_id: 6,
        input_commitment: commitment(7),
        output_commitment: commitment(8),
        model_commitment: commitment(9),
        proof_commitment: commitment(10),
        proof_system: ProofSystem::RiscZeroStark,
        proof_size_bytes: TARGET_PROOF_SIZE_MAX_BYTES,
        verification_latency_ms: 1,
        submitted_at: 100,
    }
    .validate_shape(SubnetPolicy::qubitum())
    .unwrap();

    let record = InferenceRecord::from_valid_submission(submission);

    assert_eq!(record.input_commitment, commitment(7));
    assert_eq!(record.model_commitment, commitment(9));
    assert_eq!(record.recorded_at, 100);
}

#[test]
fn payment_settlement_preserves_total_payment() {
    let settlement = settle_inference_payment(1_000, 250, 50).unwrap();

    assert_eq!(
        settlement,
        InferenceSettlement {
            miner_payment: 970,
            validator_fee: 25,
            treasury_fee: 5,
        }
    );
}

#[test]
fn halving_schedule_reduces_emission_every_four_years() {
    assert_eq!(halving_epoch(0), 0);
    assert_eq!(halving_epoch(HALVING_INTERVAL_BLOCKS), 1);
    assert_eq!(emission_after_halvings(1_000, 0).unwrap(), 1_000);
    assert_eq!(
        emission_after_halvings(1_000, HALVING_INTERVAL_BLOCKS).unwrap(),
        500
    );
    assert_eq!(
        emission_after_halvings(1_000, HALVING_INTERVAL_BLOCKS * 2).unwrap(),
        250
    );
}

#[test]
fn post_quantum_signature_roadmap_is_encoded() {
    assert_eq!(signature_mode_for_year(1), SignatureMode::ClassicalEcdsa);
    assert_eq!(signature_mode_for_year(2), SignatureMode::HybridDilithium);
    assert_eq!(signature_mode_for_year(3), SignatureMode::FullPostQuantum);
}

#[test]
fn privacy_table_matches_specification() {
    assert_eq!(
        privacy_table(),
        [
            PrivacyElement {
                element: PrivacyElementKind::ModelWeights,
                visibility: Visibility::Private,
            },
            PrivacyElement {
                element: PrivacyElementKind::InferenceInput,
                visibility: Visibility::Private,
            },
            PrivacyElement {
                element: PrivacyElementKind::InferenceOutput,
                visibility: Visibility::Public,
            },
            PrivacyElement {
                element: PrivacyElementKind::MinerIdentity,
                visibility: Visibility::Optional,
            },
        ]
    );
}
