use qubitum_protocol::{
    AccountId, AccountLedger, Commitment, FailClosedProofVerifier, InferenceProofSubmission, MockVerifier,
    ProofProcessing, ProofSystem, ProtocolError, ProtocolState, RegistryStatus, ShapeVerifier,
    SubnetDomain, BOND_EXIT_COOLDOWN_BLOCKS, INITIAL_SUPPLY, MAX_MINER_BOND,
    MINER_REGISTRATION_BURN, MIN_INVALID_PROOF_SLASH_BPS, MIN_MINER_BOND,
    TARGET_PROOF_SIZE_MIN_BYTES,
};

fn account(seed: u8) -> AccountId {
    [seed; 32]
}

fn commitment(seed: u8) -> Commitment {
    [seed; 32]
}

const KNOWN: [u8; 5] = [1, 2, 3, 4, 99];

fn seeded_state() -> ProtocolState {
    ProtocolState::with_genesis(
        account(99),
        &[
            (account(1), 1_000_000_000_000_000),
            (account(2), 1_000_000_000_000_000),
            (account(3), 1_000_000_000_000_000),
            (account(4), 1_000_000_000_000_000),
        ],
    )
    .unwrap()
}

fn accounted_supply(state: &ProtocolState) -> u128 {
    let held: u128 = KNOWN
        .iter()
        .map(|seed| {
            let ledger = state.ledger(&account(*seed));
            ledger.free + ledger.locked
        })
        .sum();
    held + state.total_burned
}

/// A state with one subnet, an active miner (operator 2) and a validator (operator 3).
fn active_market() -> (ProtocolState, u16, u64, u64) {
    let mut state = seeded_state();
    let subnet_id = state
        .create_subnet(account(1), SubnetDomain::Vision, MINER_REGISTRATION_BURN)
        .unwrap();
    let miner_id = state
        .register_miner(account(2), subnet_id, commitment(10), ProofSystem::RiscZeroStark)
        .unwrap();
    state.activate_miner(miner_id, MIN_MINER_BOND).unwrap();
    let validator_id = state.register_validator(account(3), subnet_id, MIN_MINER_BOND).unwrap();
    (state, subnet_id, miner_id, validator_id)
}

fn submission(request_id: u64, subnet_id: u16, miner_id: u64, validator_id: u64) -> InferenceProofSubmission {
    InferenceProofSubmission {
        request_id,
        subnet_id,
        miner_id,
        validator_id,
        input_commitment: commitment(1),
        output_commitment: commitment(2),
        model_commitment: commitment(10),
        proof_commitment: commitment(44),
        proof_system: ProofSystem::RiscZeroStark,
        proof_size_bytes: TARGET_PROOF_SIZE_MIN_BYTES,
        verification_latency_ms: 10,
        submitted_at: 5,
    }
}

#[test]
fn genesis_rejects_endowments_beyond_initial_supply() {
    assert_eq!(
        ProtocolState::with_genesis(account(99), &[(account(1), INITIAL_SUPPLY), (account(2), 1)])
            .err(),
        Some(ProtocolError::ArithmeticOverflow)
    );
    let exact = ProtocolState::with_genesis(account(99), &[(account(1), INITIAL_SUPPLY)]).unwrap();
    assert_eq!(exact.ledger(&account(99)), AccountLedger { free: 0, locked: 0 });
    assert_eq!(exact.ledger(&account(1)).free, INITIAL_SUPPLY);
    assert_eq!(exact.ledger(&account(7)), AccountLedger::default());
}

#[test]
fn genesis_endowing_an_account_twice_credits_both() {
    let state =
        ProtocolState::with_genesis(account(99), &[(account(1), 10), (account(1), 5)]).unwrap();
    assert_eq!(state.ledger(&account(1)).free, 15);
    assert_eq!(state.ledger(&account(99)).free, INITIAL_SUPPLY - 15);
}

#[test]
fn supply_is_conserved_across_the_lifecycle() {
    let (mut state, subnet_id, miner_id, validator_id) = active_market();
    assert_eq!(accounted_supply(&state), INITIAL_SUPPLY);

    state
        .process_proof(
            account(4),
            submission(1, subnet_id, miner_id, validator_id),
            1_000,
            250,
            50,
            &MockVerifier::expecting(commitment(44)),
        )
        .unwrap();
    assert_eq!(accounted_supply(&state), INITIAL_SUPPLY);

    state.slash_miner(miner_id, MIN_INVALID_PROOF_SLASH_BPS).unwrap();
    assert_eq!(accounted_supply(&state), INITIAL_SUPPLY);

    state.begin_miner_exit(miner_id, 3).unwrap();
    state.complete_miner_exit(miner_id, 3 + BOND_EXIT_COOLDOWN_BLOCKS).unwrap();
    assert_eq!(accounted_supply(&state), INITIAL_SUPPLY);
    assert_eq!(
        state.total_burned,
        2 * MINER_REGISTRATION_BURN + MIN_MINER_BOND / 10
    );
}

#[test]
fn subnet_creation_errors() {
    let mut state = seeded_state();
    assert_eq!(
        state.create_subnet(account(1), SubnetDomain::Code, MINER_REGISTRATION_BURN - 1),
        Err(ProtocolError::InvalidCreationBurn)
    );
    assert_eq!(
        state.create_subnet(account(50), SubnetDomain::Code, MINER_REGISTRATION_BURN),
        Err(ProtocolError::InsufficientBalance)
    );
    assert_eq!(state.total_burned, 0);
    assert_eq!(state.create_subnet(account(1), SubnetDomain::Biology, MINER_REGISTRATION_BURN), Ok(0));
    assert_eq!(
        state.create_subnet(account(1), SubnetDomain::Custom(commitment(3)), MINER_REGISTRATION_BURN),
        Ok(1)
    );
}

#[test]
fn miner_registration_errors() {
    let mut state = seeded_state();
    let subnet_id = state
        .create_subnet(account(1), SubnetDomain::General, MINER_REGISTRATION_BURN)
        .unwrap();
    assert_eq!(
        state.register_miner(account(2), subnet_id + 1, commitment(10), ProofSystem::RiscZeroStark),
        Err(ProtocolError::UnknownSubnet)
    );
    assert_eq!(
        state.register_miner(account(2), subnet_id, commitment(10), ProofSystem::Stark),
        Err(ProtocolError::ProofSystemMismatch)
    );
    assert_eq!(
        state.register_miner(account(2), subnet_id, [0; 32], ProofSystem::RiscZeroStark),
        Err(ProtocolError::MissingCommitment)
    );
    assert_eq!(
        state.register_miner(account(50), subnet_id, commitment(10), ProofSystem::RiscZeroStark),
        Err(ProtocolError::InsufficientBalance)
    );
    assert_eq!(state.activate_miner(7, MIN_MINER_BOND), Err(ProtocolError::UnknownMiner));
    let miner_id = state
        .register_miner(account(2), subnet_id, commitment(10), ProofSystem::RiscZeroStark)
        .unwrap();
    assert_eq!(state.miners.get(&miner_id).unwrap().status, RegistryStatus::Pending);
    assert_eq!(
        state.activate_miner(miner_id, MAX_MINER_BOND + 1),
        Err(ProtocolError::InvalidBond)
    );
}

#[test]
fn validator_registration_errors() {
    let mut state = seeded_state();
    assert_eq!(
        state.register_validator(account(3), 0, MIN_MINER_BOND),
        Err(ProtocolError::UnknownSubnet)
    );
    let subnet_id = state
        .create_subnet(account(1), SubnetDomain::General, MINER_REGISTRATION_BURN)
        .unwrap();
    assert_eq!(
        state.register_validator(account(3), subnet_id, MIN_MINER_BOND - 1),
        Err(ProtocolError::InvalidStake)
    );
    assert_eq!(
        state.register_validator(account(50), subnet_id, MIN_MINER_BOND),
        Err(ProtocolError::InsufficientBalance)
    );
    assert_eq!(state.register_validator(account(3), subnet_id, MIN_MINER_BOND), Ok(0));
    assert_eq!(state.register_validator(account(4), subnet_id, MIN_MINER_BOND), Ok(1));
    assert_eq!(state.validators.get(&0).unwrap().routing_subnets, vec![subnet_id]);
    assert_eq!(state.validators.get(&1).unwrap().status, RegistryStatus::Active);
}

#[test]
fn exit_errors() {
    let (mut state, _, miner_id, _) = active_market();
    assert_eq!(state.complete_miner_exit(miner_id, 10), Err(ProtocolError::NotActive));
    assert_eq!(state.complete_miner_exit(miner_id + 1, 10), Err(ProtocolError::UnknownMiner));
    assert_eq!(state.begin_miner_exit(miner_id + 1, 10), Err(ProtocolError::UnknownMiner));
    assert_eq!(state.begin_miner_exit(miner_id, u64::MAX), Err(ProtocolError::ArithmeticOverflow));
    state.begin_miner_exit(miner_id, 0).unwrap();
    assert_eq!(
        state.miners.get(&miner_id).unwrap().status,
        RegistryStatus::Exiting { exit_available_at: BOND_EXIT_COOLDOWN_BLOCKS }
    );
}

#[test]
fn slash_errors_and_partial_slash() {
    let (mut state, _, miner_id, _) = active_market();
    assert_eq!(state.slash_miner(miner_id + 1, 1_000), Err(ProtocolError::UnknownMiner));
    assert_eq!(state.slash_miner(miner_id, 999), Err(ProtocolError::InvalidSlashPercent));
    assert_eq!(state.slash_miner(miner_id, 10_001), Err(ProtocolError::InvalidSlashPercent));
    assert_eq!(state.slash_miner(miner_id, 10_000), Ok(MIN_MINER_BOND));
    assert_eq!(state.ledger(&account(2)).locked, 0);
    assert_eq!(state.miners.get(&miner_id).unwrap().status, RegistryStatus::Slashed);
}

#[test]
fn proof_admission_errors() {
    let (mut state, subnet_id, miner_id, validator_id) = active_market();
    let verifier = ShapeVerifier;
    let good = submission(9, subnet_id, miner_id, validator_id);
    assert_eq!(
        state.process_proof(account(4), InferenceProofSubmission { subnet_id: 5, ..good }, 1_000, 250, 50, &verifier),
        Err(ProtocolError::UnknownSubnet)
    );
    assert_eq!(
        state.process_proof(account(4), InferenceProofSubmission { miner_id: 8, ..good }, 1_000, 250, 50, &verifier),
        Err(ProtocolError::UnknownMiner)
    );
    assert_eq!(
        state.process_proof(account(4), InferenceProofSubmission { validator_id: 8, ..good }, 1_000, 250, 50, &verifier),
        Err(ProtocolError::UnknownValidator)
    );
    assert_eq!(
        state.process_proof(account(4), InferenceProofSubmission { output_commitment: [0; 32], ..good }, 1_000, 250, 50, &verifier),
        Err(ProtocolError::MissingCommitment)
    );
    assert_eq!(
        state.process_proof(account(4), good, 1_000, 9_000, 2_000, &verifier),
        Err(ProtocolError::InvalidRewardSplit)
    );
    assert_eq!(
        state.process_proof(account(50), good, 1_000, 250, 50, &verifier),
        Err(ProtocolError::InsufficientBalance)
    );
    assert!(state.records.is_empty());
    assert_eq!(accounted_supply(&state), INITIAL_SUPPLY);
}

#[test]
fn mismatched_proof_commitment_is_slashed_at_policy_minimum() {
    let (mut state, subnet_id, miner_id, validator_id) = active_market();
    let result = state
        .process_proof(
            account(4),
            submission(3, subnet_id, miner_id, validator_id),
            1_000,
            250,
            50,
            &MockVerifier::expecting(commitment(45)),
        )
        .unwrap();
    assert_eq!(result, ProofProcessing::Rejected { miner_slashed: MIN_MINER_BOND / 10 });
    assert!(state.records.get(&3).is_none());
}

#[test]
fn accepted_proof_pays_every_party() {
    let (mut state, subnet_id, miner_id, validator_id) = active_market();
    let before_user = state.ledger(&account(4)).free;
    let before_miner = state.ledger(&account(2)).free;
    let before_validator = state.ledger(&account(3)).free;
    let before_treasury = state.ledger(&account(99)).free;
    let result = state
        .process_proof(
            account(4),
            submission(2, subnet_id, miner_id, validator_id),
            1_000,
            250,
            50,
            &MockVerifier::accepting(),
        )
        .unwrap();
    match result {
        ProofProcessing::Accepted(record) => assert_eq!(record.request_id, 2),
        other => panic!("unexpected {other:?}"),
    }
    assert_eq!(state.ledger(&account(4)).free, before_user - 1_000);
    assert_eq!(state.ledger(&account(2)).free, before_miner + 970);
    assert_eq!(state.ledger(&account(3)).free, before_validator + 25);
    assert_eq!(state.ledger(&account(99)).free, before_treasury + 5);
}

#[test]
fn fail_closed_verifier_refuses_every_submission() {
    let (mut state, subnet_id, miner_id, validator_id) = active_market();
    assert_eq!(
        state.process_proof(
            account(4),
            submission(6, subnet_id, miner_id, validator_id),
            1_000,
            250,
            50,
            &FailClosedProofVerifier,
        ),
        Err(ProtocolError::VerifierError)
    );
    assert!(state.records.is_empty());
    assert_eq!(state.ledger(&account(2)).locked, MIN_MINER_BOND);
}
