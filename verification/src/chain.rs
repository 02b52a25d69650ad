//! The chain-facing surface of the Qubitum pallet that does not touch storage: the verifier
//! mode, the readiness blockers and the protocol parameters derived from runtime
//! configuration, the redacted public views, and the sorted routing indexes.
use vstd::prelude::*;

use crate::rules::ChainRuleError;
use crate::{
    Balance, BlockNumber, MinerId, ProofSystem, RegistryStatus, RequestId, SignatureMode,
    SubnetDomain, SubnetId, ValidatorId,
};

verus! {

/// How the runtime's proof verifier treats submissions.
#[derive(Clone, Copy, Debug, PartialEq, Eq, Structural)]
pub enum ProofVerifierMode {
    FailClosed,
    ShapeOnly,
    ProductionZk,
    TestOnly,
}

impl ProofVerifierMode {
    /// Whether proofs can settle under this mode: every mode but the fail-closed one.
    pub fn proof_settlement_enabled(self) -> (r: bool)
        ensures
            r == !(self is FailClosed),
    {
        match self {
            ProofVerifierMode::FailClosed => false,
            _ => true,
        }
    }

    /// Whether this mode is a production zero-knowledge verifier.
    pub fn production_zk_verifier(self) -> (r: bool)
        ensures
            r == (self is ProductionZk),
    {
        match self {
            ProofVerifierMode::ProductionZk => true,
            _ => false,
        }
    }
}

/// What still keeps the chain from production: each flag names a missing capability.
#[derive(Clone, Copy, Debug, PartialEq, Eq, Structural)]
pub struct ChainReadinessBlockers {
    pub proof_settlement_disabled: bool,
    pub production_zk_verifier_missing: bool,
    pub committed_request_payloads_missing: bool,
    pub shielded_call_payloads_missing: bool,
    pub shield_submitter_origin_privacy_missing: bool,
    pub shield_key_window_privacy_missing: bool,
    pub private_route_selection_missing: bool,
    pub account_commitment_blinding_missing: bool,
    pub private_routing_indexes_missing: bool,
    pub private_storage_keys_missing: bool,
    pub private_capital_accounting_missing: bool,
    pub private_event_metadata_missing: bool,
    pub signature_mode_not_full_post_quantum: bool,
    pub post_quantum_account_signatures_missing: bool,
    pub post_quantum_signature_crypto_verification_missing: bool,
    pub identity_signature_verification_missing: bool,
    pub external_audit_missing: bool,
}

impl ChainReadinessBlockers {
    /// Some privacy capability is missing.
    pub open spec fn spec_privacy_blocked(self) -> bool {
        self.committed_request_payloads_missing || self.shielded_call_payloads_missing
            || self.shield_submitter_origin_privacy_missing
            || self.shield_key_window_privacy_missing || self.private_route_selection_missing
            || self.account_commitment_blinding_missing || self.private_routing_indexes_missing
            || self.private_storage_keys_missing || self.private_capital_accounting_missing
            || self.private_event_metadata_missing
    }

    /// Some post-quantum capability is missing.
    pub open spec fn spec_post_quantum_blocked(self) -> bool {
        self.signature_mode_not_full_post_quantum || self.post_quantum_account_signatures_missing
            || self.post_quantum_signature_crypto_verification_missing
            || self.identity_signature_verification_missing
    }

    /// Something keeps the chain from production.
    pub open spec fn spec_production_blocked(self) -> bool {
        self.proof_settlement_disabled || self.production_zk_verifier_missing
            || self.spec_privacy_blocked() || self.spec_post_quantum_blocked()
            || self.external_audit_missing
    }

    /// Whether some privacy capability is missing.
    pub fn privacy_blocked(self) -> (r: bool)
        ensures
            r == self.spec_privacy_blocked(),
    {
        self.committed_request_payloads_missing || self.shielded_call_payloads_missing
            || self.shield_submitter_origin_privacy_missing
            || self.shield_key_window_privacy_missing || self.private_route_selection_missing
            || self.account_commitment_blinding_missing || self.private_routing_indexes_missing
            || self.private_storage_keys_missing || self.private_capital_accounting_missing
            || self.private_event_metadata_missing
    }

    /// Whether some post-quantum capability is missing.
    pub fn post_quantum_blocked(self) -> (r: bool)
        ensures
            r == self.spec_post_quantum_blocked(),
    {
        self.signature_mode_not_full_post_quantum || self.post_quantum_account_signatures_missing
            || self.post_quantum_signature_crypto_verification_missing
            || self.identity_signature_verification_missing
    }

    /// Whether anything keeps the chain from production.
    pub fn production_blocked(self) -> (r: bool)
        ensures
            r == self.spec_production_blocked(),
    {
        self.proof_settlement_disabled || self.production_zk_verifier_missing
            || self.privacy_blocked() || self.post_quantum_blocked() || self.external_audit_missing
    }
}

/// Registry status as public views show it: without the exit schedule.
#[derive(Clone, Copy, Debug, PartialEq, Eq, Structural)]
pub enum PublicRegistryStatus {
    Pending,
    Active,
    Exiting,
    Slashed,
    Disabled,
}

/// The public form of a registry status.
pub open spec fn spec_public_registry_status(status: RegistryStatus) -> PublicRegistryStatus {
    match status {
        RegistryStatus::Pending => PublicRegistryStatus::Pending,
        RegistryStatus::Active => PublicRegistryStatus::Active,
        RegistryStatus::Exiting { .. } => PublicRegistryStatus::Exiting,
        RegistryStatus::Slashed => PublicRegistryStatus::Slashed,
        RegistryStatus::Disabled => PublicRegistryStatus::Disabled,
    }
}

impl From<RegistryStatus> for PublicRegistryStatus {
    fn from(status: RegistryStatus) -> (r: Self) {
        match status {
            RegistryStatus::Pending => PublicRegistryStatus::Pending,
            RegistryStatus::Active => PublicRegistryStatus::Active,
            RegistryStatus::Exiting { .. } => PublicRegistryStatus::Exiting,
            RegistryStatus::Slashed => PublicRegistryStatus::Slashed,
            RegistryStatus::Disabled => PublicRegistryStatus::Disabled,
        }
    }
}

impl vstd::std_specs::convert::FromSpecImpl<RegistryStatus> for PublicRegistryStatus {
    open spec fn obeys_from_spec() -> bool {
        true
    }

    open spec fn from_spec(v: RegistryStatus) -> Self {
        spec_public_registry_status(v)
    }
}

/// Lifecycle of an inference request.
#[derive(Clone, Copy, Debug, PartialEq, Eq, Structural)]
pub enum InferenceRequestStatus {
    Pending,
    Settled,
    Cancelled,
    Rejected,
    Expired,
}

/// Public view of a subnet: no owner and no economic policy.
#[derive(Clone, Copy, Debug, PartialEq, Eq)]
pub struct ChainPublicSubnet {
    pub id: SubnetId,
    pub domain: SubnetDomain,
    pub proof_system: ProofSystem,
    pub active: bool,
}

/// Public view of a miner: no operator, capital or model commitment.
#[derive(Clone, Copy, Debug, PartialEq, Eq, Structural)]
pub struct ChainPublicMiner {
    pub id: MinerId,
    pub subnet_id: SubnetId,
    pub proof_system: ProofSystem,
    pub status: PublicRegistryStatus,
}

/// Public view of a validator: no operator and no capital.
#[derive(Clone, Copy, Debug, PartialEq, Eq, Structural)]
pub struct ChainPublicValidator {
    pub id: ValidatorId,
    pub subnet_id: SubnetId,
    pub status: PublicRegistryStatus,
}

/// Public view of a participant's identity commitments: which of them are recorded, never
/// their values.
#[derive(Clone, Copy, Debug, PartialEq, Eq, Structural)]
pub struct ChainPublicIdentity {
    pub participant_id: u64,
    pub has_shielded_identity_commitment: bool,
    pub has_endpoint_commitment: bool,
    pub signature_commitment_recorded: bool,
    pub signature_challenge_bound: bool,
    pub signature_verified: bool,
    pub challenge_available: bool,
}

/// Public view of an inference request: no route, payment or timing.
#[derive(Clone, Copy, Debug, PartialEq, Eq, Structural)]
pub struct ChainPublicInferenceRequest {
    pub request_id: RequestId,
    pub subnet_id: SubnetId,
    pub status: InferenceRequestStatus,
}

/// Public view of a proof record: no route and no proof metadata.
#[derive(Clone, Copy, Debug, PartialEq, Eq, Structural)]
pub struct ChainPublicProofRecord {
    pub request_id: RequestId,
    pub subnet_id: SubnetId,
    pub proof_system: ProofSystem,
}

/// Public answer to whether a subnet can route a new request.
#[derive(Clone, Copy, Debug, PartialEq, Eq, Structural)]
pub struct ChainRouteAvailability {
    pub request_id: RequestId,
    pub subnet_id: SubnetId,
    pub available: bool,
}

/// Inference accounting totals.
#[derive(Clone, Copy, Debug, PartialEq, Eq, Structural)]
pub struct ChainAccounting {
    pub total_inference_escrowed: Balance,
    pub total_miner_payouts: Balance,
    pub total_validator_fees: Balance,
    pub total_treasury_fees: Balance,
    pub total_inference_refunded: Balance,
    pub legacy_migration_failures: u32,
}

/// Counts of legacy records that a runtime upgrade could not migrate.
#[derive(Clone, Copy, Debug, PartialEq, Eq, Structural)]
pub struct ChainMigrationHealth {
    pub legacy_accounting_failures: u32,
    pub legacy_routing_index_failures: u32,
    pub legacy_capital_record_failures: u32,
}

/// Counts of inference requests by status.
#[derive(Clone, Copy, Debug, PartialEq, Eq, Structural)]
pub struct ChainRequestStatusCounts {
    pub pending: RequestId,
    pub settled: RequestId,
    pub cancelled: RequestId,
    pub rejected: RequestId,
    pub expired: RequestId,
}

/// The runtime configuration the pallet reads its policy from.
#[derive(Clone, Copy, Debug, PartialEq, Eq, Structural)]
pub struct QubitumRuntimeConfig {
    pub subnet_creation_burn: Balance,
    pub miner_registration_burn: Balance,
    pub min_miner_bond: Balance,
    pub max_miner_bond: Balance,
    pub max_active_miners_per_subnet: u32,
    pub max_active_validators_per_subnet: u32,
    pub min_validator_stake: Balance,
    pub min_invalid_proof_slash_bps: u16,
    pub max_invalid_proof_slash_bps: u16,
    pub min_proof_size_bytes: u32,
    pub max_proof_size_bytes: u32,
    pub max_verification_latency_ms: u32,
    pub max_proof_submission_age_blocks: BlockNumber,
    pub signature_mode: SignatureMode,
    pub shielded_call_payloads: bool,
    pub shielded_call_payload_execution: bool,
    pub proof_verifier_mode: ProofVerifierMode,
    pub miner_exit_cooldown_blocks: BlockNumber,
    pub validator_exit_cooldown_blocks: BlockNumber,
    pub request_cancel_delay_blocks: BlockNumber,
}

/// The runtime's policy and privacy posture as published to clients.
#[derive(Clone, Copy, Debug, PartialEq, Eq, Structural)]
pub struct ChainProtocolParams {
    pub subnet_creation_burn: Balance,
    pub miner_registration_burn: Balance,
    pub min_miner_bond: Balance,
    pub max_miner_bond: Balance,
    pub max_active_miners_per_subnet: u32,
    pub max_active_validators_per_subnet: u32,
    pub min_validator_stake: Balance,
    pub min_invalid_proof_slash_bps: u16,
    pub max_invalid_proof_slash_bps: u16,
    pub min_proof_size_bytes: u32,
    pub max_proof_size_bytes: u32,
    pub max_verification_latency_ms: u32,
    pub max_proof_submission_age_blocks: BlockNumber,
    pub proof_verifier_mode: ProofVerifierMode,
    pub proof_settlement_enabled: bool,
    pub production_zk_verifier: bool,
    pub signature_mode: SignatureMode,
    pub committed_request_payloads: bool,
    pub shielded_call_payloads: bool,
    pub shield_submitter_origin_privacy: bool,
    pub shield_key_window_privacy: bool,
    pub private_route_selection: bool,
    pub account_commitment_blinding: bool,
    pub private_routing_indexes: bool,
    pub private_storage_keys: bool,
    pub private_capital_accounting: bool,
    pub private_event_metadata: bool,
    pub public_event_payloads_redacted: bool,
    pub public_query_ids_redacted: bool,
    pub public_subnet_records_redacted: bool,
    pub route_availability_ids_redacted: bool,
    pub public_route_availability_redacted: bool,
    pub public_accounting_totals_redacted: bool,
    pub public_accounting_migration_failures_redacted: bool,
    pub public_migration_health_redacted: bool,
    pub public_request_status_counts_redacted: bool,
    pub public_registry_records_redacted: bool,
    pub public_request_records_redacted: bool,
    pub public_proof_records_redacted: bool,
    pub public_next_request_id_redacted: bool,
    pub public_registry_counts_redacted: bool,
    pub public_total_burned_redacted: bool,
    pub public_identity_metadata_redacted: bool,
    pub post_quantum_account_signatures: bool,
    pub post_quantum_signature_crypto_verification: bool,
    pub privacy_complete: bool,
    pub post_quantum_complete: bool,
    pub production_ready: bool,
    pub identity_signature_commitment_policy: bool,
    pub identity_signature_challenge_binding: bool,
    pub identity_signature_verification: bool,
    pub readiness_blockers: ChainReadinessBlockers,
    pub miner_exit_cooldown_blocks: BlockNumber,
    pub validator_exit_cooldown_blocks: BlockNumber,
    pub request_cancel_delay_blocks: BlockNumber,
}

/// The readiness blockers of a runtime configured by `config`: settlement, verifier, shielded
/// execution and signature mode follow the configuration; every other capability is missing.
pub open spec fn spec_readiness_blockers(config: QubitumRuntimeConfig) -> ChainReadinessBlockers {
    ChainReadinessBlockers {
        proof_settlement_disabled: config.proof_verifier_mode is FailClosed,
        production_zk_verifier_missing: !(config.proof_verifier_mode is ProductionZk),
        committed_request_payloads_missing: true,
        shielded_call_payloads_missing: !(config.shielded_call_payloads
            && config.shielded_call_payload_execution),
        shield_submitter_origin_privacy_missing: true,
        shield_key_window_privacy_missing: true,
        private_route_selection_missing: true,
        account_commitment_blinding_missing: true,
        private_routing_indexes_missing: true,
        private_storage_keys_missing: true,
        private_capital_accounting_missing: true,
        private_event_metadata_missing: true,
        signature_mode_not_full_post_quantum: config.signature_mode
            != SignatureMode::FullPostQuantum,
        post_quantum_account_signatures_missing: true,
        post_quantum_signature_crypto_verification_missing: true,
        identity_signature_verification_missing: true,
        external_audit_missing: true,
    }
}

/// Publishes the runtime's policy, privacy posture and readiness.
pub fn protocol_params(config: &QubitumRuntimeConfig) -> (r: ChainProtocolParams)
    ensures
        r.subnet_creation_burn == config.subnet_creation_burn,
        r.miner_registration_burn == config.miner_registration_burn,
        r.min_miner_bond == config.min_miner_bond,
        r.max_miner_bond == config.max_miner_bond,
        r.max_active_miners_per_subnet == config.max_active_miners_per_subnet,
        r.max_active_validators_per_subnet == config.max_active_validators_per_subnet,
        r.min_validator_stake == config.min_validator_stake,
        r.min_invalid_proof_slash_bps == config.min_invalid_proof_slash_bps,
        r.max_invalid_proof_slash_bps == config.max_invalid_proof_slash_bps,
        r.min_proof_size_bytes == config.min_proof_size_bytes,
        r.max_proof_size_bytes == config.max_proof_size_bytes,
        r.max_verification_latency_ms == config.max_verification_latency_ms,
        r.max_proof_submission_age_blocks == config.max_proof_submission_age_blocks,
        r.proof_verifier_mode == config.proof_verifier_mode,
        r.proof_settlement_enabled == !(config.proof_verifier_mode is FailClosed),
        r.production_zk_verifier == (config.proof_verifier_mode is ProductionZk),
        r.signature_mode == config.signature_mode,
        r.shielded_call_payloads == config.shielded_call_payloads,
        r.miner_exit_cooldown_blocks == config.miner_exit_cooldown_blocks,
        r.validator_exit_cooldown_blocks == config.validator_exit_cooldown_blocks,
        r.request_cancel_delay_blocks == config.request_cancel_delay_blocks,
        // Capabilities this runtime does not have yet.
        !r.committed_request_payloads && !r.shield_submitter_origin_privacy
            && !r.shield_key_window_privacy && !r.private_route_selection
            && !r.account_commitment_blinding && !r.private_routing_indexes
            && !r.private_storage_keys && !r.private_capital_accounting
            && !r.private_event_metadata && !r.post_quantum_account_signatures
            && !r.post_quantum_signature_crypto_verification
            && !r.identity_signature_verification,
        // Public views and events are redacted.
        r.public_event_payloads_redacted && r.public_query_ids_redacted
            && r.public_subnet_records_redacted && r.route_availability_ids_redacted
            && r.public_route_availability_redacted && r.public_accounting_totals_redacted
            && r.public_accounting_migration_failures_redacted
            && r.public_migration_health_redacted && r.public_request_status_counts_redacted
            && r.public_registry_records_redacted && r.public_request_records_redacted
            && r.public_proof_records_redacted && r.public_next_request_id_redacted
            && r.public_registry_counts_redacted && r.public_total_burned_redacted
            && r.public_identity_metadata_redacted,
        r.identity_signature_commitment_policy && r.identity_signature_challenge_binding,
        r.readiness_blockers == spec_readiness_blockers(*config),
        // The completion flags are exactly the absence of the matching blockers.
        r.privacy_complete == !r.readiness_blockers.spec_privacy_blocked(),
        r.post_quantum_complete == !r.readiness_blockers.spec_post_quantum_blocked(),
        r.production_ready == !r.readiness_blockers.spec_production_blocked(),
        // Production readiness requires every part of the roadmap.
        r.production_ready ==> r.privacy_complete && r.post_quantum_complete
            && r.proof_settlement_enabled && r.production_zk_verifier,
        // Without an external audit the runtime never reports itself production ready.
        !r.production_ready,
{
    let proof_verifier_mode = config.proof_verifier_mode;
    let proof_settlement_enabled = proof_verifier_mode.proof_settlement_enabled();
    let production_zk_verifier = proof_verifier_mode.production_zk_verifier();
    let signature_mode = config.signature_mode;
    let committed_request_payloads = false;
    let shielded_call_payloads = config.shielded_call_payloads;
    let shielded_call_payload_execution = shielded_call_payloads
        && config.shielded_call_payload_execution;
    let shield_submitter_origin_privacy = false;
    let shield_key_window_privacy = false;
    let private_route_selection = false;
    let account_commitment_blinding = false;
    let private_routing_indexes = false;
    let private_storage_keys = false;
    let private_capital_accounting = false;
    let private_event_metadata = false;
    let post_quantum_account_signatures = false;
    let post_quantum_signature_crypto_verification = false;
    let identity_signature_verification = false;
    let readiness_blockers = ChainReadinessBlockers {
        proof_settlement_disabled: !proof_settlement_enabled,
        production_zk_verifier_missing: !production_zk_verifier,
        committed_request_payloads_missing: !committed_request_payloads,
        shielded_call_payloads_missing: !shielded_call_payload_execution,
        shield_submitter_origin_privacy_missing: !shield_submitter_origin_privacy,
        shield_key_window_privacy_missing: !shield_key_window_privacy,
        private_route_selection_missing: !private_route_selection,
        account_commitment_blinding_missing: !account_commitment_blinding,
        private_routing_indexes_missing: !private_routing_indexes,
        private_storage_keys_missing: !private_storage_keys,
        private_capital_accounting_missing: !private_capital_accounting,
        private_event_metadata_missing: !private_event_metadata,
        signature_mode_not_full_post_quantum: signature_mode != SignatureMode::FullPostQuantum,
        post_quantum_account_signatures_missing: !post_quantum_account_signatures,
        post_quantum_signature_crypto_verification_missing:
            !post_quantum_signature_crypto_verification,
        identity_signature_verification_missing: !identity_signature_verification,
        external_audit_missing: true,
    };
    let privacy_complete = !readiness_blockers.privacy_blocked();
    let post_quantum_complete = !readiness_blockers.post_quantum_blocked();
    let production_ready = !readiness_blockers.production_blocked();

    ChainProtocolParams {
        subnet_creation_burn: config.subnet_creation_burn,
        miner_registration_burn: config.miner_registration_burn,
        min_miner_bond: config.min_miner_bond,
        max_miner_bond: config.max_miner_bond,
        max_active_miners_per_subnet: config.max_active_miners_per_subnet,
        max_active_validators_per_subnet: config.max_active_validators_per_subnet,
        min_validator_stake: config.min_validator_stake,
        min_invalid_proof_slash_bps: config.min_invalid_proof_slash_bps,
        max_invalid_proof_slash_bps: config.max_invalid_proof_slash_bps,
        min_proof_size_bytes: config.min_proof_size_bytes,
        max_proof_size_bytes: config.max_proof_size_bytes,
        max_verification_latency_ms: config.max_verification_latency_ms,
        max_proof_submission_age_blocks: config.max_proof_submission_age_blocks,
        proof_verifier_mode,
        proof_settlement_enabled,
        production_zk_verifier,
        signature_mode,
        committed_request_payloads,
        shielded_call_payloads,
        shield_submitter_origin_privacy,
        shield_key_window_privacy,
        private_route_selection,
        account_commitment_blinding,
        private_routing_indexes,
        private_storage_keys,
        private_capital_accounting,
        private_event_metadata,
        public_event_payloads_redacted: true,
        public_query_ids_redacted: true,
        public_subnet_records_redacted: true,
        route_availability_ids_redacted: true,
        public_route_availability_redacted: true,
        public_accounting_totals_redacted: true,
        public_accounting_migration_failures_redacted: true,
        public_migration_health_redacted: true,
        public_request_status_counts_redacted: true,
        public_registry_records_redacted: true,
        public_request_records_redacted: true,
        public_proof_records_redacted: true,
        public_next_request_id_redacted: true,
        public_registry_counts_redacted: true,
        public_total_burned_redacted: true,
        public_identity_metadata_redacted: true,
        post_quantum_account_signatures,
        post_quantum_signature_crypto_verification,
        privacy_complete,
        post_quantum_complete,
        production_ready,
        identity_signature_commitment_policy: true,
        identity_signature_challenge_binding: true,
        identity_signature_verification,
        readiness_blockers,
        miner_exit_cooldown_blocks: config.miner_exit_cooldown_blocks,
        validator_exit_cooldown_blocks: config.validator_exit_cooldown_blocks,
        request_cancel_delay_blocks: config.request_cancel_delay_blocks,
    }
}

/// How many of `statuses` equal `which`.
pub open spec fn status_count(statuses: Seq<InferenceRequestStatus>, which: InferenceRequestStatus) -> nat
    decreases statuses.len(),
{
    if statuses.len() == 0 {
        0
    } else {
        status_count(statuses.drop_last(), which) + if statuses.last() == which {
            1nat
        } else {
            0nat
        }
    }
}

/// `n`, saturating at `u64::MAX`.
pub open spec fn saturate_u64(n: nat) -> u64 {
    if n > u64::MAX {
        u64::MAX
    } else {
        n as u64
    }
}

/// The counter of `which` in `counts`.
pub open spec fn count_of(counts: ChainRequestStatusCounts, which: InferenceRequestStatus) -> u64 {
    match which {
        InferenceRequestStatus::Pending => counts.pending,
        InferenceRequestStatus::Settled => counts.settled,
        InferenceRequestStatus::Cancelled => counts.cancelled,
        InferenceRequestStatus::Rejected => counts.rejected,
        InferenceRequestStatus::Expired => counts.expired,
    }
}

/// `counts` with the counter of `which` set to `value`.
pub open spec fn with_count(
    counts: ChainRequestStatusCounts,
    which: InferenceRequestStatus,
    value: u64,
) -> ChainRequestStatusCounts {
    match which {
        InferenceRequestStatus::Pending => ChainRequestStatusCounts { pending: value, ..counts },
        InferenceRequestStatus::Settled => ChainRequestStatusCounts { settled: value, ..counts },
        InferenceRequestStatus::Cancelled => ChainRequestStatusCounts { cancelled: value, ..counts },
        InferenceRequestStatus::Rejected => ChainRequestStatusCounts { rejected: value, ..counts },
        InferenceRequestStatus::Expired => ChainRequestStatusCounts { expired: value, ..counts },
    }
}

/// The counters of a list of request statuses, each saturating at `u64::MAX`.
pub open spec fn spec_status_counts(statuses: Seq<InferenceRequestStatus>) -> ChainRequestStatusCounts {
    ChainRequestStatusCounts {
        pending: saturate_u64(status_count(statuses, InferenceRequestStatus::Pending)),
        settled: saturate_u64(status_count(statuses, InferenceRequestStatus::Settled)),
        cancelled: saturate_u64(status_count(statuses, InferenceRequestStatus::Cancelled)),
        rejected: saturate_u64(status_count(statuses, InferenceRequestStatus::Rejected)),
        expired: saturate_u64(status_count(statuses, InferenceRequestStatus::Expired)),
    }
}

fn saturating_increment(v: u64) -> (r: u64)
    ensures
        r == saturate_u64((v + 1) as nat),
{
    if v == u64::MAX {
        v
    } else {
        v + 1
    }
}

/// Counts inference requests by status, as the runtime does when it rebuilds its counters.
pub fn count_request_statuses(statuses: &Vec<InferenceRequestStatus>) -> (r: ChainRequestStatusCounts)
    ensures
        r == spec_status_counts(statuses@),
{
    let mut counts = ChainRequestStatusCounts {
        pending: 0,
        settled: 0,
        cancelled: 0,
        rejected: 0,
        expired: 0,
    };
    let mut i: usize = 0;
    proof {
        assert(statuses@.take(0) =~= Seq::<InferenceRequestStatus>::empty());
    }
    while i < statuses.len()
        invariant
            0 <= i <= statuses@.len(),
            counts == spec_status_counts(statuses@.take(i as int)),
        decreases statuses@.len() - i,
    {
        proof {
            assert(statuses@.take(i + 1).drop_last() =~= statuses@.take(i as int));
            assert(statuses@.take(i + 1).last() == statuses@[i as int]);
        }
        match statuses[i] {
            InferenceRequestStatus::Pending => {
                counts.pending = saturating_increment(counts.pending);
            },
            InferenceRequestStatus::Settled => {
                counts.settled = saturating_increment(counts.settled);
            },
            InferenceRequestStatus::Cancelled => {
                counts.cancelled = saturating_increment(counts.cancelled);
            },
            InferenceRequestStatus::Rejected => {
                counts.rejected = saturating_increment(counts.rejected);
            },
            InferenceRequestStatus::Expired => {
                counts.expired = saturating_increment(counts.expired);
            },
        }
        i = i + 1;
    }
    proof {
        assert(statuses@.take(statuses@.len() as int) =~= statuses@);
    }
    counts
}

/// The counters after one request moves from `from` to `to`: unchanged when the status stays;
/// else `from` is decremented, failing at zero, and `to` incremented, failing at `u64::MAX`.
pub open spec fn spec_transition_request_status(
    counts: ChainRequestStatusCounts,
    from: InferenceRequestStatus,
    to: InferenceRequestStatus,
) -> Result<ChainRequestStatusCounts, ChainRuleError> {
    if from == to {
        Ok(counts)
    } else if count_of(counts, from) == 0 {
        Err(ChainRuleError::RequestStatusCounterUnderflow)
    } else if count_of(counts, to) == u64::MAX {
        Err(ChainRuleError::ArithmeticOverflow)
    } else {
        Ok(
            with_count(
                with_count(counts, from, (count_of(counts, from) - 1) as u64),
                to,
                (count_of(counts, to) + 1) as u64,
            ),
        )
    }
}

fn read_count(counts: &ChainRequestStatusCounts, which: InferenceRequestStatus) -> (r: u64)
    ensures
        r == count_of(*counts, which),
{
    match which {
        InferenceRequestStatus::Pending => counts.pending,
        InferenceRequestStatus::Settled => counts.settled,
        InferenceRequestStatus::Cancelled => counts.cancelled,
        InferenceRequestStatus::Rejected => counts.rejected,
        InferenceRequestStatus::Expired => counts.expired,
    }
}

fn write_count(counts: ChainRequestStatusCounts, which: InferenceRequestStatus, value: u64) -> (r:
    ChainRequestStatusCounts)
    ensures
        r == with_count(counts, which, value),
{
    match which {
        InferenceRequestStatus::Pending => ChainRequestStatusCounts { pending: value, ..counts },
        InferenceRequestStatus::Settled => ChainRequestStatusCounts { settled: value, ..counts },
        InferenceRequestStatus::Cancelled => ChainRequestStatusCounts { cancelled: value, ..counts },
        InferenceRequestStatus::Rejected => ChainRequestStatusCounts { rejected: value, ..counts },
        InferenceRequestStatus::Expired => ChainRequestStatusCounts { expired: value, ..counts },
    }
}

/// Moves one request's status in the counters from `from` to `to`.
pub fn transition_request_status(
    counts: ChainRequestStatusCounts,
    from: InferenceRequestStatus,
    to: InferenceRequestStatus,
) -> (r: Result<ChainRequestStatusCounts, ChainRuleError>)
    ensures
        r == spec_transition_request_status(counts, from, to),
{
    if from == to {
        return Ok(counts);
    }
    let from_count = read_count(&counts, from);
    if from_count == 0 {
        return Err(ChainRuleError::RequestStatusCounterUnderflow);
    }
    let to_count = read_count(&counts, to);
    if to_count == u64::MAX {
        return Err(ChainRuleError::ArithmeticOverflow);
    }
    let lowered = write_count(counts, from, from_count - 1);
    proof {
        assert(count_of(lowered, to) == to_count);
    }
    Ok(write_count(lowered, to, to_count + 1))
}

proof fn lemma_status_count_update(
    statuses: Seq<InferenceRequestStatus>,
    i: int,
    to: InferenceRequestStatus,
    which: InferenceRequestStatus,
)
    requires
        0 <= i < statuses.len(),
    ensures
        status_count(statuses.update(i, to), which) + (if statuses[i] == which {
            1int
        } else {
            0int
        }) == status_count(statuses, which) + (if to == which {
            1int
        } else {
            0int
        }),
        status_count(statuses, which) <= statuses.len(),
    decreases statuses.len(),
{
    let updated = statuses.update(i, to);
    if i == statuses.len() - 1 {
        assert(updated.drop_last() =~= statuses.drop_last());
        lemma_status_count_bounded(statuses.drop_last(), which);
    } else {
        assert(updated.drop_last() =~= statuses.drop_last().update(i, to));
        lemma_status_count_update(statuses.drop_last(), i, to, which);
    }
}

proof fn lemma_status_count_bounded(statuses: Seq<InferenceRequestStatus>, which: InferenceRequestStatus)
    ensures
        status_count(statuses, which) <= statuses.len(),
    decreases statuses.len(),
{
    if statuses.len() > 0 {
        lemma_status_count_bounded(statuses.drop_last(), which);
    }
}

/// The counters track the requests: moving one request from its status to `to` changes the
/// counters of the request list exactly as a counter transition does (while no counter
/// saturates).
pub proof fn lemma_transition_tracks_requests(
    statuses: Seq<InferenceRequestStatus>,
    i: int,
    to: InferenceRequestStatus,
)
    requires
        0 <= i < statuses.len(),
        statuses.len() < u64::MAX,
    ensures
        spec_transition_request_status(spec_status_counts(statuses), statuses[i], to) == Ok::<
            ChainRequestStatusCounts,
            ChainRuleError,
        >(spec_status_counts(statuses.update(i, to))),
{
    let updated = statuses.update(i, to);
    lemma_status_count_update(statuses, i, to, InferenceRequestStatus::Pending);
    lemma_status_count_update(statuses, i, to, InferenceRequestStatus::Settled);
    lemma_status_count_update(statuses, i, to, InferenceRequestStatus::Cancelled);
    lemma_status_count_update(statuses, i, to, InferenceRequestStatus::Rejected);
    lemma_status_count_update(statuses, i, to, InferenceRequestStatus::Expired);
    lemma_status_count_bounded(updated, InferenceRequestStatus::Pending);
    lemma_status_count_bounded(updated, InferenceRequestStatus::Settled);
    lemma_status_count_bounded(updated, InferenceRequestStatus::Cancelled);
    lemma_status_count_bounded(updated, InferenceRequestStatus::Rejected);
    lemma_status_count_bounded(updated, InferenceRequestStatus::Expired);
}

/// The starting position of a routing scan over `len` participants for `seed`.
pub fn route_index(seed: u64, len: usize) -> (r: Option<usize>)
    ensures
        len == 0 ==> r is None,
        len > 0 ==> r == Some((seed % (len as u64)) as usize),
{
    if len == 0 {
        return None;
    }
    let count: u64 = len as u64;
    let index = seed % count;
    Some(index as usize)
}

/// Why a routing index refuses another participant.
#[derive(Clone, Copy, Debug, PartialEq, Eq, Structural)]
pub enum RoutingIndexError {
    TooManyActiveMiners,
    TooManyActiveValidators,
}

/// Identifiers in non-decreasing order.
pub open spec fn sorted_ids(s: Seq<u64>) -> bool {
    forall|i: int, j: int| 0 <= i < j < s.len() ==> s[i] <= s[j]
}

/// Inserts `x` into sorted `out`, keeping it sorted.
fn insert_in_order(out: &mut Vec<u64>, x: u64)
    requires
        sorted_ids(old(out)@),
    ensures
        sorted_ids(final(out)@),
        final(out)@.to_multiset() == old(out)@.to_multiset().insert(x),
        final(out)@.len() == old(out)@.len() + 1,
{
    let mut j: usize = 0;
    while j < out.len() && out[j] <= x
        invariant
            0 <= j <= out@.len(),
            out@ == old(out)@,
            forall|k: int| 0 <= k < j ==> out@[k] <= x,
        decreases out@.len() - j,
    {
        j = j + 1;
    }
    let ghost before = out@;
    proof {
        vstd::seq_lib::to_multiset_insert(before, j as int, x);
    }
    out.insert(j, x);
    assert forall|a: int, b: int| 0 <= a < b < out@.len() implies out@[a] <= out@[b] by {
        if b < j {
            assert(out@[a] == before[a] && out@[b] == before[b]);
        } else if b == j {
            assert(out@[a] == before[a]);
        } else if a < j {
            assert(out@[a] == before[a] && out@[b] == before[b - 1]);
            assert(before[j as int] > x);
        } else if a == j {
            assert(out@[b] == before[b - 1]);
            assert(before[j as int] > x);
        } else {
            assert(out@[a] == before[a - 1] && out@[b] == before[b - 1]);
        }
    }
}

/// Whether `ids` lists `id`.
pub(crate) fn lists_id(ids: &Vec<u64>, id: u64) -> (r: bool)
    ensures
        r == ids@.contains(id),
{
    let mut i: usize = 0;
    while i < ids.len()
        invariant
            0 <= i <= ids@.len(),
            forall|k: int| 0 <= k < i ==> ids@[k] != id,
        decreases ids@.len() - i,
    {
        if ids[i] == id {
            assert(ids@[i as int] == id);
            return true;
        }
        i = i + 1;
    }
    false
}

/// The identifiers of `ids` together with `id`, sorted.
fn sorted_with(ids: &Vec<u64>, id: u64) -> (r: Vec<u64>)
    ensures
        sorted_ids(r@),
        r@.to_multiset() == ids@.push(id).to_multiset(),
        r@.len() == ids@.len() + 1,
{
    let mut out: Vec<u64> = Vec::new();
    let mut i: usize = 0;
    proof {
        assert(ids@.take(0) =~= Seq::<u64>::empty());
        assert(out@ =~= Seq::<u64>::empty());
    }
    while i < ids.len()
        invariant
            0 <= i <= ids@.len(),
            sorted_ids(out@),
            out@.to_multiset() == ids@.take(i as int).to_multiset(),
            out@.len() == i,
        decreases ids@.len() - i,
    {
        proof {
            assert(ids@.take(i + 1) =~= ids@.take(i as int).push(ids@[i as int]));
            vstd::seq_lib::to_multiset_build(ids@.take(i as int), ids@[i as int]);
        }
        insert_in_order(&mut out, ids[i]);
        i = i + 1;
    }
    proof {
        assert(ids@.take(ids@.len() as int) =~= ids@);
        vstd::seq_lib::to_multiset_build(ids@, id);
    }
    insert_in_order(&mut out, id);
    out
}

/// The outcome of adding `id` to a routing index of at most `capacity` entries: unchanged when
/// already listed, refused with `too_many` when full, otherwise the sorted entries with `id`.
pub open spec fn insert_sorted_post(
    before: Seq<u64>,
    after: Seq<u64>,
    id: u64,
    capacity: u32,
    too_many: RoutingIndexError,
    r: Result<bool, RoutingIndexError>,
) -> bool {
    if before.contains(id) {
        r == Ok::<bool, RoutingIndexError>(false) && after == before
    } else if before.len() + 1 > capacity {
        r == Err::<bool, RoutingIndexError>(too_many) && after == before
    } else {
        &&& r == Ok::<bool, RoutingIndexError>(true)
        &&& sorted_ids(after)
        &&& after.to_multiset() == before.push(id).to_multiset()
    }
}

pub(crate) fn insert_sorted_id(ids: &mut Vec<u64>, id: u64, capacity: u32, too_many: RoutingIndexError) -> (r:
    Result<bool, RoutingIndexError>)
    ensures
        insert_sorted_post(old(ids)@, final(ids)@, id, capacity, too_many, r),
{
    if lists_id(ids, id) {
        return Ok(false);
    }
    let sorted = sorted_with(ids, id);
    if sorted.len() > capacity as usize {
        return Err(too_many);
    }
    *ids = sorted;
    Ok(true)
}

/// Adds a miner to a subnet's sorted active-miner index of at most `capacity` entries.
pub fn insert_sorted_miner_id(ids: &mut Vec<MinerId>, miner_id: MinerId, capacity: u32) -> (r:
    Result<bool, RoutingIndexError>)
    ensures
        insert_sorted_post(
            old(ids)@,
            final(ids)@,
            miner_id,
            capacity,
            RoutingIndexError::TooManyActiveMiners,
            r,
        ),
{
    insert_sorted_id(ids, miner_id, capacity, RoutingIndexError::TooManyActiveMiners)
}

/// Adds a validator to a subnet's sorted active-validator index of at most `capacity` entries.
pub fn insert_sorted_validator_id(ids: &mut Vec<ValidatorId>, validator_id: ValidatorId, capacity: u32) -> (r:
    Result<bool, RoutingIndexError>)
    ensures
        insert_sorted_post(
            old(ids)@,
            final(ids)@,
            validator_id,
            capacity,
            RoutingIndexError::TooManyActiveValidators,
            r,
        ),
{
    insert_sorted_id(ids, validator_id, capacity, RoutingIndexError::TooManyActiveValidators)
}

/// The identifiers of `s` other than `id`, in order.
pub open spec fn without_id(s: Seq<u64>, id: u64) -> Seq<u64> {
    s.filter(|x: u64| x != id)
}

/// Removes every occurrence of `id` from a routing index, keeping the order of the rest.
pub fn remove_indexed_id(ids: &mut Vec<u64>, id: u64)
    ensures
        final(ids)@ == without_id(old(ids)@, id),
{
    let mut kept: Vec<u64> = Vec::new();
    let mut i: usize = 0;
    while i < ids.len()
        invariant
            0 <= i <= ids@.len(),
            ids@ == old(ids)@,
            kept@ == without_id(ids@.take(i as int), id),
        decreases ids@.len() - i,
    {
        proof {
            assert(ids@.take(i + 1).drop_last() =~= ids@.take(i as int));
            reveal_with_fuel(Seq::<u64>::filter, 1);
        }
        if ids[i] != id {
            kept.push(ids[i]);
        }
        i = i + 1;
    }
    proof {
        assert(ids@.take(ids@.len() as int) =~= ids@);
    }
    *ids = kept;
}

/// A runtime's readiness follows its configuration: settlement is blocked exactly under the
/// fail-closed verifier, the production verifier is missing unless configured, shielded calls
/// are missing unless both carried and executed, the signature blocker holds until full
/// post-quantum signatures; privacy stays blocked, and so the chain is never production ready.
pub proof fn lemma_readiness_follows_config(config: QubitumRuntimeConfig)
    ensures
        spec_readiness_blockers(config).proof_settlement_disabled <==> config.proof_verifier_mode
            == ProofVerifierMode::FailClosed,
        spec_readiness_blockers(config).production_zk_verifier_missing <==> config.proof_verifier_mode
            != ProofVerifierMode::ProductionZk,
        spec_readiness_blockers(config).shielded_call_payloads_missing <==> !(config.shielded_call_payloads
            && config.shielded_call_payload_execution),
        spec_readiness_blockers(config).signature_mode_not_full_post_quantum <==> config.signature_mode
            != SignatureMode::FullPostQuantum,
        spec_readiness_blockers(config).spec_privacy_blocked(),
        spec_readiness_blockers(config).spec_post_quantum_blocked(),
        spec_readiness_blockers(config).spec_production_blocked(),
{
}

/// Moving a request between two different statuses lowers the first counter by one and raises
/// the second by one, leaving the others; a move to the same status changes nothing.
pub proof fn lemma_transition_moves_one_request(
    counts: ChainRequestStatusCounts,
    from: InferenceRequestStatus,
    to: InferenceRequestStatus,
)
    ensures
        spec_transition_request_status(counts, from, to) matches Ok(next) ==> {
            &&& from == to ==> next == counts
            &&& from != to ==> {
                &&& count_of(next, from) + 1 == count_of(counts, from)
                &&& count_of(next, to) == count_of(counts, to) + 1
                &&& forall|other: InferenceRequestStatus|
                    other != from && other != to ==> #[trigger] count_of(next, other) == count_of(
                        counts,
                        other,
                    )
            }
        },
        from != to && count_of(counts, from) > 0 && count_of(counts, to) < u64::MAX
            ==> spec_transition_request_status(counts, from, to) is Ok,
{
}

proof fn lemma_status_counts_sum(statuses: Seq<InferenceRequestStatus>)
    ensures
        status_count(statuses, InferenceRequestStatus::Pending) + status_count(
            statuses,
            InferenceRequestStatus::Settled,
        ) + status_count(statuses, InferenceRequestStatus::Cancelled) + status_count(
            statuses,
            InferenceRequestStatus::Rejected,
        ) + status_count(statuses, InferenceRequestStatus::Expired) == statuses.len(),
    decreases statuses.len(),
{
    if statuses.len() > 0 {
        lemma_status_counts_sum(statuses.drop_last());
    }
}

/// Every request is counted under exactly one status: the counters of a list that fits the
/// counter type add up to its length.
pub proof fn lemma_status_counts_cover_each_request_once(statuses: Seq<InferenceRequestStatus>)
    requires
        statuses.len() <= u64::MAX,
    ensures
        spec_status_counts(statuses).pending + spec_status_counts(statuses).settled
            + spec_status_counts(statuses).cancelled + spec_status_counts(statuses).rejected
            + spec_status_counts(statuses).expired == statuses.len(),
{
    lemma_status_counts_sum(statuses);
}

/// Adding a participant to a routing index lists it and keeps everyone listed before, without
/// exceeding the capacity; it is refused only when the index is full and does not list it yet.
pub proof fn lemma_index_insertion_keeps_members(
    before: Seq<u64>,
    after: Seq<u64>,
    id: u64,
    capacity: u32,
    too_many: RoutingIndexError,
    r: Result<bool, RoutingIndexError>,
)
    requires
        insert_sorted_post(before, after, id, capacity, too_many, r),
    ensures
        r is Ok ==> after.contains(id) && forall|x: u64| #[trigger] before.contains(x) ==> after.contains(x),
        r == Ok::<bool, RoutingIndexError>(true) ==> after.len() == before.len() + 1 && after.len()
            <= capacity,
        r is Err ==> !before.contains(id) && before.len() >= capacity && after == before,
{
    if r == Ok::<bool, RoutingIndexError>(true) {
        before.push(id).to_multiset_ensures();
        after.to_multiset_ensures();
        before.to_multiset_ensures();
        assert(before.push(id)[before.len() as int] == id);
        assert(before.push(id).contains(id));
        assert forall|x: u64| #[trigger] before.contains(x) implies after.contains(x) by {
            let i = choose|i: int| 0 <= i < before.len() && before[i] == x;
            assert(before.push(id)[i] == x);
            assert(before.push(id).contains(x));
            assert(before.push(id).to_multiset().count(x) > 0);
        }
        assert(before.push(id).to_multiset().count(id) > 0);
    }
}

/// Dropping `id` from an index leaves it unlisted and keeps every other participant.
pub proof fn lemma_index_removal_keeps_others(s: Seq<u64>, id: u64)
    ensures
        !without_id(s, id).contains(id),
        forall|x: u64| x != id && #[trigger] s.contains(x) ==> without_id(s, id).contains(x),
{
    let pred = |x: u64| x != id;
    s.filter_lemma(pred);
    assert forall|x: u64| x != id && #[trigger] s.contains(x) implies without_id(s, id).contains(x) by {
        let i = choose|i: int| 0 <= i < s.len() && s[i] == x;
        assert(pred(s[i]));
    }
    if without_id(s, id).contains(id) {
        let i = choose|i: int| 0 <= i < without_id(s, id).len() && without_id(s, id)[i] == id;
        assert(pred(s.filter(pred)[i]));
    }
}

} // verus!
