use qubitum_protocol::{
    AccountId, Commitment, InferenceProofSubmission, MockVerifier, ProofProcessing, ProofSystem,
    ProtocolError, ProtocolState, RegistryStatus, SubnetDomain, BOND_EXIT_COOLDOWN_BLOCKS,
    INITIAL_SUPPLY, MAX_MINER_BOND, MINER_REGISTRATION_BURN, MIN_INVALID_PROOF_SLASH_BPS,
    MIN_MINER_BOND, TARGET_PROOF_SIZE_MIN_BYTES,
};

fn account(seed: u8) -> AccountId {
    [seed; 32]
}

fn commitment(seed: u8) -> Commitment {
    [seed; 32]
}

fn seeded_state() -> ProtocolState {
    ProtocolState::with_genesis(
        account(99),
        &[
            (account(1), 1_000_000_000_000_000),
            (account(2), 1_000_000_000_000_000),
            (account(3), 1_000_000_000_000_000),
            (account(4), 1_000_000_000_000_000),
        ],
    )
    .unwrap()
}

#[test]
fn genesis_credits_treasury_with_remaining_supply() {
    let state = ProtocolState::with_genesis(account(99), &[(account(1), 100)]).unwrap();

    assert_eq!(state.ledger(&account(1)).free, 100);
    assert_eq!(state.ledger(&account(99)).free, INITIAL_SUPPLY - 100);
}

#[test]
fn subnet_creation_burns_qbt_and_records_policy() {
    let mut state = seeded_state();

    let subnet_id = state
        .create_subnet(account(1), SubnetDomain::Code, MINER_REGISTRATION_BURN)
        .unwrap();

    assert_eq!(subnet_id, 0);
    assert_eq!(state.total_burned, MINER_REGISTRATION_BURN);
    assert_eq!(
        state.subnets.get(&subnet_id).unwrap().policy.proof_system,
        ProofSystem::RiscZeroStark
    );
}

#[test]
fn miner_registration_burns_and_activation_locks_bond() {
    let mut state = seeded_state();
    let subnet_id = state
        .create_subnet(account(1), SubnetDomain::General, MINER_REGISTRATION_BURN)
        .unwrap();

    let miner_id = state
        .register_miner(
            account(2),
            subnet_id,
            commitment(10),
            ProofSystem::RiscZeroStark,
        )
        .unwrap();
    state.activate_miner(miner_id, MIN_MINER_BOND).unwrap();

    assert_eq!(
        state.miners.get(&miner_id).unwrap().status,
        RegistryStatus::Active
    );
    assert_eq!(state.ledger(&account(2)).locked, MIN_MINER_BOND);
    assert_eq!(
        state.total_burned,
        MINER_REGISTRATION_BURN + MINER_REGISTRATION_BURN
    );
}

#[test]
fn activation_rejects_bond_outside_policy() {
    let mut state = seeded_state();
    let subnet_id = state
        .create_subnet(account(1), SubnetDomain::General, MINER_REGISTRATION_BURN)
        .unwrap();
    let miner_id = state
        .register_miner(
            account(2),
            subnet_id,
            commitment(10),
            ProofSystem::RiscZeroStark,
        )
        .unwrap();

    assert_eq!(
        state.activate_miner(miner_id, MAX_MINER_BOND + 1),
        Err(ProtocolError::InvalidBond)
    );
}

#[test]
fn validator_registration_locks_stake() {
    let mut state = seeded_state();
    let subnet_id = state
        .create_subnet(account(1), SubnetDomain::Vision, MINER_REGISTRATION_BURN)
        .unwrap();

    let validator_id = state
        .register_validator(account(3), subnet_id, MIN_MINER_BOND)
        .unwrap();

    assert_eq!(
        state.validators.get(&validator_id).unwrap().routing_subnets,
        vec![subnet_id]
    );
    assert_eq!(state.ledger(&account(3)).locked, MIN_MINER_BOND);
}

#[test]
fn valid_proof_settles_payment_and_records_commitments() {
    let mut state = seeded_state();
    let subnet_id = state
        .create_subnet(account(1), SubnetDomain::General, MINER_REGISTRATION_BURN)
        .unwrap();
    let miner_id = state
        .register_miner(
            account(2),
            subnet_id,
            commitment(10),
            ProofSystem::RiscZeroStark,
        )
        .unwrap();
    state.activate_miner(miner_id, MIN_MINER_BOND).unwrap();
    let validator_id = state
        .register_validator(account(3), subnet_id, MIN_MINER_BOND)
        .unwrap();

    let payer_before = state.ledger(&account(4)).free;
    let record = state
        .submit_valid_proof(
            account(4),
            InferenceProofSubmission {
                request_id: 42,
                subnet_id,
                miner_id,
                validator_id,
                input_commitment: commitment(1),
                output_commitment: commitment(2),
                model_commitment: commitment(10),
                proof_commitment: commitment(11),
                proof_system: ProofSystem::RiscZeroStark,
                proof_size_bytes: TARGET_PROOF_SIZE_MIN_BYTES,
                verification_latency_ms: 10,
                submitted_at: 77,
            },
            1_000,
            250,
            50,
        )
        .unwrap();

    assert_eq!(record.request_id, 42);
    assert_eq!(state.records.get(&42), Some(&record));
    assert_eq!(state.ledger(&account(4)).free, payer_before - 1_000);
    assert_eq!(
        state.ledger(&account(2)).free,
        1_000_000_000_000_000 - MINER_REGISTRATION_BURN - MIN_MINER_BOND + 970
    );
    assert_eq!(
        state.ledger(&account(3)).free,
        1_000_000_000_000_000 - MIN_MINER_BOND + 25
    );
    assert_eq!(
        state.ledger(&account(99)).free,
        INITIAL_SUPPLY - 4_000_000_000_000_000 + 5
    );
}

#[test]
fn process_proof_uses_verifier_and_slashes_invalid_submission() {
    let mut state = seeded_state();
    let subnet_id = state
        .create_subnet(account(1), SubnetDomain::General, MINER_REGISTRATION_BURN)
        .unwrap();
    let miner_id = state
        .register_miner(
            account(2),
            subnet_id,
            commitment(10),
            ProofSystem::RiscZeroStark,
        )
        .unwrap();
    state.activate_miner(miner_id, MIN_MINER_BOND).unwrap();
    let validator_id = state
        .register_validator(account(3), subnet_id, MIN_MINER_BOND)
        .unwrap();

    let result = state
        .process_proof(
            account(4),
            InferenceProofSubmission {
                request_id: 43,
                subnet_id,
                miner_id,
                validator_id,
                input_commitment: commitment(1),
                output_commitment: commitment(2),
                model_commitment: commitment(10),
                proof_commitment: commitment(11),
                proof_system: ProofSystem::RiscZeroStark,
                proof_size_bytes: TARGET_PROOF_SIZE_MIN_BYTES,
                verification_latency_ms: 10,
                submitted_at: 77,
            },
            1_000,
            250,
            50,
            &MockVerifier::rejecting(MIN_INVALID_PROOF_SLASH_BPS),
        )
        .unwrap();

    assert_eq!(
        result,
        ProofProcessing::Rejected {
            miner_slashed: 10_000_000_000
        }
    );
    assert_eq!(state.records.get(&43), None);
    assert_eq!(state.ledger(&account(2)).locked, 90_000_000_000);
    assert_eq!(
        state.miners.get(&miner_id).unwrap().status,
        RegistryStatus::Slashed
    );
}

#[test]
fn miner_exit_enforces_cooldown_and_unlocks_bond() {
    let mut state = seeded_state();
    let subnet_id = state
        .create_subnet(account(1), SubnetDomain::General, MINER_REGISTRATION_BURN)
        .unwrap();
    let miner_id = state
        .register_miner(
            account(2),
            subnet_id,
            commitment(10),
            ProofSystem::RiscZeroStark,
        )
        .unwrap();
    state.activate_miner(miner_id, MIN_MINER_BOND).unwrap();
    state.begin_miner_exit(miner_id, 10).unwrap();

    assert_eq!(
        state.complete_miner_exit(miner_id, 10 + BOND_EXIT_COOLDOWN_BLOCKS - 1),
        Err(ProtocolError::CooldownNotComplete)
    );

    state
        .complete_miner_exit(miner_id, 10 + BOND_EXIT_COOLDOWN_BLOCKS)
        .unwrap();

    assert_eq!(state.ledger(&account(2)).locked, 0);
    assert_eq!(state.miners.get(&miner_id).unwrap().bond, 0);
    assert_eq!(
        state.miners.get(&miner_id).unwrap().status,
        RegistryStatus::Disabled
    );
}

#[test]
fn state_getters_read_the_registries() {
    let mut state = seeded_state();
    let subnet_id = state
        .create_subnet(account(1), SubnetDomain::General, MINER_REGISTRATION_BURN)
        .unwrap();
    assert_eq!(state.treasury(), account(99));
    assert_eq!(state.burned(), MINER_REGISTRATION_BURN);
    assert!(state.registered_subnets().contains_key(&subnet_id));
    assert!(state.registered_miners().is_empty());
    assert!(state.registered_validators().is_empty());
    assert!(state.recorded_inferences().is_empty());
}
