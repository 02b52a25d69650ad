//! The chain registry: subnets, miners, validators, their identity commitments and routing
//! indexes, inference requests with their status counters, proof records and accounting
//! totals, with the public views the chain answers queries from. Commitments that the chain
//! computes by hashing are handed to the transitions as arguments.
use vstd::prelude::*;

use std::collections::BTreeMap;

use crate::chain::{
    count_of, insert_sorted_id, lists_id, remove_indexed_id, without_id, sorted_ids, spec_public_registry_status,
    ChainAccounting, ChainMigrationHealth, ChainPublicIdentity, ChainPublicInferenceRequest,
    ChainPublicMiner, ChainPublicProofRecord, ChainPublicSubnet, ChainPublicValidator,
    ChainRequestStatusCounts, InferenceRequestStatus, PublicRegistryStatus, RoutingIndexError,
};
use crate::post_quantum::{bundle_error, SignatureBundle, SignaturePolicy};
use crate::rules::ChainRuleError;
use crate::settlement::{account_matches, check_account, AccountCommitments};
use crate::rules::{ensure_submission_fresh, spec_submission_freshness};
use crate::{
    commitment_is_zero, commitments_equal, is_zero_commitment, Balance, BlockNumber, Commitment,
    InferenceProofSubmission, MinerId, ProofSystem, RegistryStatus, RequestId, SignatureMode,
    SubnetDomain, SubnetId, ValidatorId,
};

verus! {

broadcast use {vstd::std_specs::btree::group_btree_axioms, vstd::laws_cmp::group_laws_cmp};

/// A registered subnet: its owner and economic policy only as commitments.
#[derive(Clone, Copy, Debug, PartialEq, Eq)]
pub struct ChainSubnet {
    pub id: SubnetId,
    pub owner_commitment: Commitment,
    pub domain: SubnetDomain,
    pub proof_system: ProofSystem,
    pub policy_commitment: Commitment,
    pub active: bool,
}

/// A registered miner: its operator and bond only as commitments.
#[derive(Clone, Copy, Debug, PartialEq, Eq)]
pub struct ChainMiner {
    pub id: MinerId,
    pub operator_commitment: Commitment,
    pub subnet_id: SubnetId,
    pub model_commitment: Commitment,
    pub proof_system: ProofSystem,
    pub bond_commitment: Commitment,
    pub status: RegistryStatus,
}

/// A registered validator: its operator and stake only as commitments.
#[derive(Clone, Copy, Debug, PartialEq, Eq)]
pub struct ChainValidator {
    pub id: ValidatorId,
    pub operator_commitment: Commitment,
    pub subnet_id: SubnetId,
    pub stake_commitment: Commitment,
    pub status: RegistryStatus,
}

/// A participant's optional identity commitments.
#[derive(Clone, Copy, Debug, PartialEq, Eq)]
pub struct ChainIdentityCommitments {
    pub shielded_identity_commitment: Option<Commitment>,
    pub endpoint_commitment: Option<Commitment>,
}

/// What a participant's identity update records: its commitments, the signature bundle over
/// the identity challenge, and that challenge.
#[derive(Clone, Copy, Debug, PartialEq, Eq)]
pub struct IdentityRecord {
    pub commitments: ChainIdentityCommitments,
    pub bundle: SignatureBundle,
    pub challenge: Commitment,
}

/// An escrowed inference request: its user, route, terms and timing only as commitments.
#[derive(Clone, Copy, Debug, PartialEq, Eq)]
pub struct ChainInferenceRequest {
    pub request_id: RequestId,
    pub user_commitment: Commitment,
    pub subnet_id: SubnetId,
    pub assignment_commitment: Commitment,
    pub input_commitment: Commitment,
    pub terms_commitment: Commitment,
    pub timing_commitment: Commitment,
    pub status: InferenceRequestStatus,
}

/// A settled proof: its route and details only as commitments.
#[derive(Clone, Copy, Debug, PartialEq, Eq)]
pub struct ChainProofRecord {
    pub request_id: RequestId,
    pub subnet_id: SubnetId,
    pub assignment_commitment: Commitment,
    pub audit_commitment: Commitment,
    pub proof_system: ProofSystem,
}

/// How many of the requests in `m` have status `which`.
pub open spec fn tally(m: Map<RequestId, ChainInferenceRequest>, which: InferenceRequestStatus) -> nat {
    m.dom().filter(|k: RequestId| m[k].status == which).len()
}

/// Whether a participant with `status` may still hold pending assignments: it is active, or
/// was slashed after they were made.
pub open spec fn may_hold_assignments(status: RegistryStatus) -> bool {
    status == RegistryStatus::Active || status == RegistryStatus::Slashed
}

/// The public view of a participant's identity record, when one is stored.
pub open spec fn identity_view(participant_id: u64, record: Option<IdentityRecord>) -> ChainPublicIdentity {
    match record {
        Some(rec) => ChainPublicIdentity {
            participant_id,
            has_shielded_identity_commitment: rec.commitments.shielded_identity_commitment is Some,
            has_endpoint_commitment: rec.commitments.endpoint_commitment is Some,
            signature_commitment_recorded: true,
            signature_challenge_bound: true,
            signature_verified: false,
            challenge_available: true,
        },
        None => ChainPublicIdentity {
            participant_id,
            has_shielded_identity_commitment: false,
            has_endpoint_commitment: false,
            signature_commitment_recorded: false,
            signature_challenge_bound: false,
            signature_verified: false,
            challenge_available: false,
        },
    }
}

/// `m[k]` when `k` is present.
pub open spec fn lookup<K, V>(m: Map<K, V>, k: K) -> Option<V> {
    if m.contains_key(k) {
        Some(m[k])
    } else {
        None
    }
}

fn identity_of(records: &BTreeMap<u64, IdentityRecord>, participant_id: u64) -> (r: ChainPublicIdentity)
    ensures
        r == identity_view(participant_id, lookup(records@, participant_id)),
{
    match records.get(&participant_id) {
        Some(rec) => ChainPublicIdentity {
            participant_id,
            has_shielded_identity_commitment: rec.commitments.shielded_identity_commitment.is_some(),
            has_endpoint_commitment: rec.commitments.endpoint_commitment.is_some(),
            signature_commitment_recorded: true,
            signature_challenge_bound: true,
            signature_verified: false,
            challenge_available: true,
        },
        None => ChainPublicIdentity {
            participant_id,
            has_shielded_identity_commitment: false,
            has_endpoint_commitment: false,
            signature_commitment_recorded: false,
            signature_challenge_bound: false,
            signature_verified: false,
            challenge_available: false,
        },
    }
}

/// The chain's registry and request book.
pub struct ChainRegistry {
    pub miner_bonds: BTreeMap<MinerId, Balance>,
    pub validator_stakes: BTreeMap<ValidatorId, Balance>,
    pub total_burned: Balance,
    pub subnets: BTreeMap<SubnetId, ChainSubnet>,
    pub miners: BTreeMap<MinerId, ChainMiner>,
    pub validators: BTreeMap<ValidatorId, ChainValidator>,
    pub miner_identities: BTreeMap<MinerId, IdentityRecord>,
    pub validator_identities: BTreeMap<ValidatorId, IdentityRecord>,
    pub active_miners: BTreeMap<SubnetId, Vec<MinerId>>,
    pub active_validators: BTreeMap<SubnetId, Vec<ValidatorId>>,
    pub pending_miner_requests: BTreeMap<MinerId, u32>,
    pub pending_validator_requests: BTreeMap<ValidatorId, u32>,
    pub proof_records: BTreeMap<RequestId, ChainProofRecord>,
    pub totals: ChainAccounting,
    pub health: ChainMigrationHealth,
    pub requests: BTreeMap<RequestId, ChainInferenceRequest>,
    pub status_counts: ChainRequestStatusCounts,
    pub next_request_id: RequestId,
    pub subnet_count: SubnetId,
    pub miner_count: MinerId,
    pub validator_count: ValidatorId,
}

impl ChainRegistry {
    /// The stored inference requests.
    pub open spec fn spec_requests(&self) -> Map<RequestId, ChainInferenceRequest> {
        self.requests@
    }

    /// The identifier the next request must carry.
    pub open spec fn spec_next_request_id(&self) -> RequestId {
        self.next_request_id
    }

    /// Well-formedness: every stored request was numbered before the next one, the status
    /// counters count the stored requests, and every stored pending-request counter is positive
    /// and names a registered participant that is active or slashed, and every registered
    /// subnet, miner and validator was numbered before the next one of its kind.
    pub open spec fn wf(&self) -> bool {
        &&& forall|id: RequestId| #[trigger] self.requests@.contains_key(id) ==> id < self.next_request_id
        &&& forall|which: InferenceRequestStatus|
            #[trigger] count_of(self.status_counts, which) == tally(self.requests@, which)
        &&& forall|id: MinerId| #[trigger] self.pending_miner_requests@.contains_key(id) ==> {
            &&& self.pending_miner_requests@[id] > 0
            &&& self.miners@.contains_key(id)
            &&& may_hold_assignments(self.miners@[id].status)
        }
        &&& forall|id: ValidatorId| #[trigger] self.pending_validator_requests@.contains_key(id) ==> {
            &&& self.pending_validator_requests@[id] > 0
            &&& self.validators@.contains_key(id)
            &&& may_hold_assignments(self.validators@[id].status)
        }
        &&& forall|id: SubnetId| #[trigger] self.subnets@.contains_key(id) ==> id < self.subnet_count
        &&& forall|id: MinerId| #[trigger] self.miners@.contains_key(id) ==> id < self.miner_count
        &&& forall|id: ValidatorId| #[trigger] self.validators@.contains_key(id) ==> id
            < self.validator_count
    }

    /// An empty registry.
    pub fn new() -> (r: Self)
        ensures
            r.wf(),
            r.subnets@ == Map::<SubnetId, ChainSubnet>::empty(),
            r.miner_bonds@ == Map::<MinerId, Balance>::empty(),
            r.validator_stakes@ == Map::<ValidatorId, Balance>::empty(),
            r.total_burned == 0,
            r.miners@ == Map::<MinerId, ChainMiner>::empty(),
            r.validators@ == Map::<ValidatorId, ChainValidator>::empty(),
            r.miner_identities@ == Map::<MinerId, IdentityRecord>::empty(),
            r.validator_identities@ == Map::<ValidatorId, IdentityRecord>::empty(),
            r.active_miners@ == Map::<SubnetId, Vec<MinerId>>::empty(),
            r.active_validators@ == Map::<SubnetId, Vec<ValidatorId>>::empty(),
            r.pending_miner_requests@ == Map::<MinerId, u32>::empty(),
            r.pending_validator_requests@ == Map::<ValidatorId, u32>::empty(),
            r.proof_records@ == Map::<RequestId, ChainProofRecord>::empty(),
            r.spec_requests() == Map::<RequestId, ChainInferenceRequest>::empty(),
            r.spec_next_request_id() == 0,
            r.subnet_count == 0,
            r.miner_count == 0,
            r.validator_count == 0,
            r.totals == (ChainAccounting {
                total_inference_escrowed: 0,
                total_miner_payouts: 0,
                total_validator_fees: 0,
                total_treasury_fees: 0,
                total_inference_refunded: 0,
                legacy_migration_failures: 0,
            }),
            r.health == (ChainMigrationHealth {
                legacy_accounting_failures: 0,
                legacy_routing_index_failures: 0,
                legacy_capital_record_failures: 0,
            }),
    {
        let r = ChainRegistry {
            miner_bonds: BTreeMap::new(),
            validator_stakes: BTreeMap::new(),
            total_burned: 0,
            subnets: BTreeMap::new(),
            miners: BTreeMap::new(),
            validators: BTreeMap::new(),
            miner_identities: BTreeMap::new(),
            validator_identities: BTreeMap::new(),
            active_miners: BTreeMap::new(),
            active_validators: BTreeMap::new(),
            pending_miner_requests: BTreeMap::new(),
            pending_validator_requests: BTreeMap::new(),
            proof_records: BTreeMap::new(),
            totals: ChainAccounting {
                total_inference_escrowed: 0,
                total_miner_payouts: 0,
                total_validator_fees: 0,
                total_treasury_fees: 0,
                total_inference_refunded: 0,
                legacy_migration_failures: 0,
            },
            health: ChainMigrationHealth {
                legacy_accounting_failures: 0,
                legacy_routing_index_failures: 0,
                legacy_capital_record_failures: 0,
            },
            requests: BTreeMap::new(),
            status_counts: ChainRequestStatusCounts {
                pending: 0,
                settled: 0,
                cancelled: 0,
                rejected: 0,
                expired: 0,
            },
            next_request_id: 0,
            subnet_count: 0,
            miner_count: 0,
            validator_count: 0,
        };
        assert forall|which: InferenceRequestStatus|
            #[trigger] count_of(r.status_counts, which) == tally(r.requests@, which) by {
            assert(r.requests@.dom().filter(|k: RequestId| r.requests@[k].status == which)
                =~= Set::<RequestId>::empty());
        }
        r
    }

    /// The inference accounting totals.
    pub fn accounting(&self) -> (r: ChainAccounting)
        ensures
            r == self.totals,
    {
        self.totals
    }

    /// The counts of legacy records that upgrades could not migrate.
    pub fn migration_health(&self) -> (r: ChainMigrationHealth)
        ensures
            r == self.health,
    {
        self.health
    }

    /// The stored inference requests counted by status.
    pub fn request_status_counts(&self) -> (r: ChainRequestStatusCounts)
        requires
            self.wf(),
        ensures
            forall|which: InferenceRequestStatus|
                #[trigger] count_of(r, which) == tally(self.spec_requests(), which),
    {
        self.status_counts
    }

    /// The public view of a subnet.
    pub fn public_subnet(&self, subnet_id: SubnetId) -> (r: Option<ChainPublicSubnet>)
        ensures
            r == match lookup(self.subnets@, subnet_id) {
                Some(s) => Some(
                    ChainPublicSubnet {
                        id: s.id,
                        domain: s.domain,
                        proof_system: s.proof_system,
                        active: s.active,
                    },
                ),
                None => None,
            },
    {
        match self.subnets.get(&subnet_id) {
            Some(s) => Some(
                ChainPublicSubnet {
                    id: s.id,
                    domain: s.domain,
                    proof_system: s.proof_system,
                    active: s.active,
                },
            ),
            None => None,
        }
    }

    /// The public view of a miner.
    pub fn public_miner(&self, miner_id: MinerId) -> (r: Option<ChainPublicMiner>)
        ensures
            r == match lookup(self.miners@, miner_id) {
                Some(m) => Some(
                    ChainPublicMiner {
                        id: m.id,
                        subnet_id: m.subnet_id,
                        proof_system: m.proof_system,
                        status: spec_public_registry_status(m.status),
                    },
                ),
                None => None,
            },
    {
        match self.miners.get(&miner_id) {
            Some(m) => Some(
                ChainPublicMiner {
                    id: m.id,
                    subnet_id: m.subnet_id,
                    proof_system: m.proof_system,
                    status: PublicRegistryStatus::from(m.status),
                },
            ),
            None => None,
        }
    }

    /// The public view of a validator.
    pub fn public_validator(&self, validator_id: ValidatorId) -> (r: Option<ChainPublicValidator>)
        ensures
            r == match lookup(self.validators@, validator_id) {
                Some(v) => Some(
                    ChainPublicValidator {
                        id: v.id,
                        subnet_id: v.subnet_id,
                        status: spec_public_registry_status(v.status),
                    },
                ),
                None => None,
            },
    {
        match self.validators.get(&validator_id) {
            Some(v) => Some(
                ChainPublicValidator {
                    id: v.id,
                    subnet_id: v.subnet_id,
                    status: PublicRegistryStatus::from(v.status),
                },
            ),
            None => None,
        }
    }

    /// The public identity view of a registered miner.
    pub fn public_miner_identity(&self, miner_id: MinerId) -> (r: Option<ChainPublicIdentity>)
        ensures
            r == if self.miners@.contains_key(miner_id) {
                Some(identity_view(miner_id, lookup(self.miner_identities@, miner_id)))
            } else {
                None
            },
    {
        if !self.miners.contains_key(&miner_id) {
            return None;
        }
        Some(identity_of(&self.miner_identities, miner_id))
    }

    /// The public identity view of a registered validator.
    pub fn public_validator_identity(&self, validator_id: ValidatorId) -> (r: Option<
        ChainPublicIdentity,
    >)
        ensures
            r == if self.validators@.contains_key(validator_id) {
                Some(identity_view(validator_id, lookup(self.validator_identities@, validator_id)))
            } else {
                None
            },
    {
        if !self.validators.contains_key(&validator_id) {
            return None;
        }
        Some(identity_of(&self.validator_identities, validator_id))
    }

    /// The public view of an inference request.
    pub fn public_inference_request(&self, request_id: RequestId) -> (r: Option<
        ChainPublicInferenceRequest,
    >)
        ensures
            r == match lookup(self.spec_requests(), request_id) {
                Some(q) => Some(
                    ChainPublicInferenceRequest {
                        request_id: q.request_id,
                        subnet_id: q.subnet_id,
                        status: q.status,
                    },
                ),
                None => None,
            },
    {
        match self.requests.get(&request_id) {
            Some(q) => Some(
                ChainPublicInferenceRequest {
                    request_id: q.request_id,
                    subnet_id: q.subnet_id,
                    status: q.status,
                },
            ),
            None => None,
        }
    }

    /// The public view of a proof record.
    pub fn public_proof_record(&self, request_id: RequestId) -> (r: Option<ChainPublicProofRecord>)
        ensures
            r == match lookup(self.proof_records@, request_id) {
                Some(p) => Some(
                    ChainPublicProofRecord {
                        request_id: p.request_id,
                        subnet_id: p.subnet_id,
                        proof_system: p.proof_system,
                    },
                ),
                None => None,
            },
    {
        match self.proof_records.get(&request_id) {
            Some(p) => Some(
                ChainPublicProofRecord {
                    request_id: p.request_id,
                    subnet_id: p.subnet_id,
                    proof_system: p.proof_system,
                },
            ),
            None => None,
        }
    }
}

/// The pending-request counter of `id` in `m` (absent means zero).
pub open spec fn pending_of(m: Map<u64, u32>, id: u64) -> u32 {
    if m.contains_key(id) {
        m[id]
    } else {
        0
    }
}

pub(crate) proof fn lemma_tally_insert(
    m: Map<RequestId, ChainInferenceRequest>,
    k: RequestId,
    v: ChainInferenceRequest,
    which: InferenceRequestStatus,
)
    requires
        m.dom().finite(),
    ensures
        tally(m.insert(k, v), which) + (if m.contains_key(k) && m[k].status == which {
            1int
        } else {
            0int
        }) == tally(m, which) + (if v.status == which {
            1int
        } else {
            0int
        }),
{
    let n = m.insert(k, v);
    let old_set = m.dom().filter(|x: RequestId| m[x].status == which);
    let new_set = n.dom().filter(|x: RequestId| n[x].status == which);
    m.dom().lemma_len_filter(|x: RequestId| m[x].status == which);
    let base = old_set.remove(k);
    assert(base.finite());
    if m.contains_key(k) && m[k].status == which {
        assert(old_set =~= base.insert(k));
    } else {
        assert(old_set =~= base);
    }
    if v.status == which {
        assert(new_set =~= base.insert(k));
    } else {
        assert(new_set =~= base);
    }
}

impl ChainRegistry {
    /// Two registries number their next subnet, miner and validator alike.
    pub open spec fn same_counts(a: ChainRegistry, b: ChainRegistry) -> bool {
        &&& b.subnet_count == a.subnet_count
        &&& b.miner_count == a.miner_count
        &&& b.validator_count == a.validator_count
    }

    /// Two registries agree on everything but requests, counters, pending counts and totals.
    pub open spec fn same_registries(a: ChainRegistry, b: ChainRegistry) -> bool {
        &&& Self::same_counts(a, b)
        &&& b.miner_bonds@ == a.miner_bonds@
        &&& b.validator_stakes@ == a.validator_stakes@
        &&& b.total_burned == a.total_burned
        &&& b.subnets@ == a.subnets@
        &&& b.miners@ == a.miners@
        &&& b.validators@ == a.validators@
        &&& b.miner_identities@ == a.miner_identities@
        &&& b.validator_identities@ == a.validator_identities@
        &&& b.active_miners@ == a.active_miners@
        &&& b.active_validators@ == a.active_validators@
        &&& b.health == a.health
    }

    /// Why opening `request` for `miner_id` and `validator_id` with `payment` escrowed fails,
    /// if it does: the route must name active, identity-bound participants of the request's
    /// subnet run by different operators, the request must carry the next request id, and no
    /// counter or total may overflow.
    pub open spec fn open_request_error(
        a: ChainRegistry,
        request: ChainInferenceRequest,
        miner_id: MinerId,
        validator_id: ValidatorId,
        payment: Balance,
    ) -> Option<ChainRuleError> {
        if !a.miners@.contains_key(miner_id) {
            Some(ChainRuleError::UnknownMiner)
        } else if !a.validators@.contains_key(validator_id) {
            Some(ChainRuleError::UnknownValidator)
        } else {
            let m = a.miners@[miner_id];
            let v = a.validators@[validator_id];
            if m.subnet_id != request.subnet_id || v.subnet_id != request.subnet_id {
                Some(ChainRuleError::ParticipantMismatch)
            } else if m.status != RegistryStatus::Active || v.status != RegistryStatus::Active {
                Some(ChainRuleError::NotActive)
            } else if m.operator_commitment == v.operator_commitment {
                Some(ChainRuleError::SelfValidation)
            } else if !a.miner_identities@.contains_key(miner_id)
                || !a.validator_identities@.contains_key(validator_id) {
                Some(ChainRuleError::MissingSignatureBundle)
            } else if request.request_id != a.next_request_id {
                Some(ChainRuleError::InvalidRequestId)
            } else if a.next_request_id == u64::MAX || a.totals.total_inference_escrowed + payment
                > u128::MAX || pending_of(a.pending_miner_requests@, miner_id) == u32::MAX
                || pending_of(a.pending_validator_requests@, validator_id) == u32::MAX
                || a.status_counts.pending == u64::MAX {
                Some(ChainRuleError::ArithmeticOverflow)
            } else {
                None
            }
        }
    }

    /// What `open_inference_request` does, taking `a` to `b` with result `r`.
    pub open spec fn open_request_post(
        a: ChainRegistry,
        b: ChainRegistry,
        request: ChainInferenceRequest,
        miner_id: MinerId,
        validator_id: ValidatorId,
        payment: Balance,
        r: Result<(), ChainRuleError>,
    ) -> bool {
        match Self::open_request_error(a, request, miner_id, validator_id, payment) {
            Some(e) => r == Err::<(), ChainRuleError>(e) && b == a,
            None => {
                &&& r == Ok::<(), ChainRuleError>(())
                &&& Self::same_registries(a, b)
                &&& b.proof_records@ == a.proof_records@
                &&& b.requests@ == a.requests@.insert(
                    request.request_id,
                    ChainInferenceRequest { status: InferenceRequestStatus::Pending, ..request },
                )
                &&& b.next_request_id == a.next_request_id + 1
                &&& b.pending_miner_requests@ == a.pending_miner_requests@.insert(
                    miner_id,
                    (pending_of(a.pending_miner_requests@, miner_id) + 1) as u32,
                )
                &&& b.pending_validator_requests@ == a.pending_validator_requests@.insert(
                    validator_id,
                    (pending_of(a.pending_validator_requests@, validator_id) + 1) as u32,
                )
                &&& b.totals == ChainAccounting {
                    total_inference_escrowed: (a.totals.total_inference_escrowed + payment) as u128,
                    ..a.totals
                }
                &&& b.status_counts == ChainRequestStatusCounts {
                    pending: (a.status_counts.pending + 1) as u64,
                    ..a.status_counts
                }
            },
        }
    }

    /// Opens an escrowed inference request routed to `miner_id` and `validator_id`, counting it
    /// pending for both participants and adding `payment` to the escrow total; the payment's
    /// hold on the user's balance is taken by the caller.
    pub fn open_inference_request(
        &mut self,
        request: ChainInferenceRequest,
        miner_id: MinerId,
        validator_id: ValidatorId,
        payment: Balance,
    ) -> (r: Result<(), ChainRuleError>)
        requires
            old(self).wf(),
        ensures
            final(self).wf(),
            Self::open_request_post(*old(self), *final(self), request, miner_id, validator_id, payment, r),
    {
        let m = match self.miners.get(&miner_id) {
            Some(m) => *m,
            None => return Err(ChainRuleError::UnknownMiner),
        };
        let v = match self.validators.get(&validator_id) {
            Some(v) => *v,
            None => return Err(ChainRuleError::UnknownValidator),
        };
        if m.subnet_id != request.subnet_id || v.subnet_id != request.subnet_id {
            return Err(ChainRuleError::ParticipantMismatch);
        }
        if m.status != RegistryStatus::Active || v.status != RegistryStatus::Active {
            return Err(ChainRuleError::NotActive);
        }
        if commitments_equal(&m.operator_commitment, &v.operator_commitment) {
            return Err(ChainRuleError::SelfValidation);
        }
        if !self.miner_identities.contains_key(&miner_id) || !self.validator_identities.contains_key(
            &validator_id,
        ) {
            return Err(ChainRuleError::MissingSignatureBundle);
        }
        if request.request_id != self.next_request_id {
            return Err(ChainRuleError::InvalidRequestId);
        }
        let miner_pending: u32 = match self.pending_miner_requests.get(&miner_id) {
            Some(c) => *c,
            None => 0,
        };
        let validator_pending: u32 = match self.pending_validator_requests.get(&validator_id) {
            Some(c) => *c,
            None => 0,
        };
        if self.next_request_id == u64::MAX || self.totals.total_inference_escrowed > u128::MAX
            - payment || miner_pending == u32::MAX || validator_pending == u32::MAX
            || self.status_counts.pending == u64::MAX {
            return Err(ChainRuleError::ArithmeticOverflow);
        }
        let ghost before = *self;
        let stored = ChainInferenceRequest { status: InferenceRequestStatus::Pending, ..request };
        proof {
            if before.requests@.contains_key(request.request_id) {
                assert(request.request_id < before.next_request_id);
            }
            assert forall|which: InferenceRequestStatus|
                #[trigger] count_of(
                    ChainRequestStatusCounts {
                        pending: (before.status_counts.pending + 1) as u64,
                        ..before.status_counts
                    },
                    which,
                ) == tally(before.requests@.insert(request.request_id, stored), which) by {
                lemma_tally_insert(before.requests@, request.request_id, stored, which);
                assert(count_of(before.status_counts, which) == tally(before.requests@, which));
            }
        }
        self.requests.insert(request.request_id, stored);
        self.next_request_id = self.next_request_id + 1;
        self.pending_miner_requests.insert(miner_id, miner_pending + 1);
        self.pending_validator_requests.insert(validator_id, validator_pending + 1);
        self.totals.total_inference_escrowed = self.totals.total_inference_escrowed + payment;
        self.status_counts.pending = self.status_counts.pending + 1;
        proof {
            assert(self.status_counts == ChainRequestStatusCounts {
                pending: (before.status_counts.pending + 1) as u64,
                ..before.status_counts
            });
            assert(self.requests@ == before.requests@.insert(request.request_id, stored));
            assert forall|which: InferenceRequestStatus|
                #[trigger] count_of(self.status_counts, which) == tally(self.requests@, which) by {
                lemma_tally_insert(before.requests@, request.request_id, stored, which);
                assert(count_of(before.status_counts, which) == tally(before.requests@, which));
            }
            assert forall|id: RequestId| #[trigger] self.requests@.contains_key(id) implies id
                < self.next_request_id by {
                if id != request.request_id {
                    assert(before.requests@.contains_key(id));
                }
            }
        }
        Ok(())
    }
}

/// The policy a proof is verified under.
#[derive(Clone, Copy, Debug, PartialEq, Eq)]
pub struct ProofVerificationPolicy {
    pub proof_system: ProofSystem,
    pub model_commitment: Commitment,
    pub min_proof_size_bytes: u32,
    pub max_proof_size_bytes: u32,
    pub max_verification_latency_ms: u32,
}

/// The runtime's bounds on proof submissions.
#[derive(Clone, Copy, Debug, PartialEq, Eq, Structural)]
pub struct SubmissionBounds {
    pub min_proof_size_bytes: u32,
    pub max_proof_size_bytes: u32,
    pub max_verification_latency_ms: u32,
    pub max_proof_submission_age_blocks: BlockNumber,
}

/// What the caller read from a submission's proof envelope and computed by hashing: the
/// envelope's journal commitment and image id, whether the envelope's verifier version supports
/// the submission's proof system, and the transcript commitment of the submission that the
/// journal must carry.
#[derive(Clone, Copy, Debug, PartialEq, Eq)]
pub struct ProofEnvelopeWitness {
    pub journal_commitment: Commitment,
    pub image_id: Commitment,
    pub verifier_supports_proof_system: bool,
    pub transcript_commitment: Commitment,
}

impl ChainRegistry {
    /// The verdict on a proof submitted for its request at block `now`: its commitments and
    /// those of its proof envelope are set, and the envelope's verifier supports its proof
    /// system; its request is pending and unproved and matches it, including the route
    /// committed as `assignment_commitment`; it meets its subnet's proof system and the
    /// runtime's size, latency and freshness bounds; its journal commits to its transcript;
    /// and its miner (serving the committed model) and validator
    /// are active, identity-bound participants of the subnet run by different operators.
    pub open spec fn spec_validate_submission(
        a: ChainRegistry,
        s: InferenceProofSubmission,
        assignment_commitment: Commitment,
        envelope: ProofEnvelopeWitness,
        now: BlockNumber,
        bounds: SubmissionBounds,
    ) -> Result<ProofVerificationPolicy, ChainRuleError> {
        if is_zero_commitment(s.input_commitment) || is_zero_commitment(s.output_commitment)
            || is_zero_commitment(s.model_commitment) || is_zero_commitment(s.proof_commitment)
            || is_zero_commitment(envelope.journal_commitment) || is_zero_commitment(
            envelope.image_id,
        ) {
            Err(ChainRuleError::MissingCommitment)
        } else if !envelope.verifier_supports_proof_system {
            Err(ChainRuleError::ProofSystemMismatch)
        } else if a.proof_records@.contains_key(s.request_id) {
            Err(ChainRuleError::DuplicateProof)
        } else if !a.requests@.contains_key(s.request_id) {
            Err(ChainRuleError::UnknownRequest)
        } else if a.requests@[s.request_id].status != InferenceRequestStatus::Pending {
            Err(ChainRuleError::RequestAlreadySettled)
        } else if a.requests@[s.request_id].subnet_id != s.subnet_id
            || a.requests@[s.request_id].input_commitment != s.input_commitment {
            Err(ChainRuleError::RequestMismatch)
        } else if a.requests@[s.request_id].assignment_commitment != assignment_commitment {
            Err(ChainRuleError::AssignmentMismatch)
        } else if !a.subnets@.contains_key(s.subnet_id) {
            Err(ChainRuleError::UnknownSubnet)
        } else if a.subnets@[s.subnet_id].proof_system != s.proof_system {
            Err(ChainRuleError::ProofSystemMismatch)
        } else if s.proof_size_bytes < bounds.min_proof_size_bytes || s.proof_size_bytes
            > bounds.max_proof_size_bytes {
            Err(ChainRuleError::InvalidProofSize)
        } else if s.verification_latency_ms > bounds.max_verification_latency_ms {
            Err(ChainRuleError::LatencyExceeded)
        } else if spec_submission_freshness(s.submitted_at, now, bounds.max_proof_submission_age_blocks) is Err {
            Err(spec_submission_freshness(s.submitted_at, now, bounds.max_proof_submission_age_blocks)->Err_0)
        } else if envelope.journal_commitment != envelope.transcript_commitment {
            Err(ChainRuleError::ProofTranscriptMismatch)
        } else if !a.miners@.contains_key(s.miner_id) {
            Err(ChainRuleError::UnknownMiner)
        } else if a.miners@[s.miner_id].subnet_id != s.subnet_id || a.miners@[s.miner_id].status
            != RegistryStatus::Active {
            Err(ChainRuleError::NotActive)
        } else if a.miners@[s.miner_id].model_commitment != s.model_commitment {
            Err(ChainRuleError::ModelCommitmentMismatch)
        } else if !a.validators@.contains_key(s.validator_id) {
            Err(ChainRuleError::UnknownValidator)
        } else if a.validators@[s.validator_id].subnet_id != s.subnet_id
            || a.validators@[s.validator_id].status != RegistryStatus::Active {
            Err(ChainRuleError::NotActive)
        } else if a.miners@[s.miner_id].operator_commitment
            == a.validators@[s.validator_id].operator_commitment {
            Err(ChainRuleError::SelfValidation)
        } else if !a.miner_identities@.contains_key(s.miner_id)
            || !a.validator_identities@.contains_key(s.validator_id) {
            Err(ChainRuleError::MissingSignatureBundle)
        } else {
            Ok(
                ProofVerificationPolicy {
                    proof_system: a.subnets@[s.subnet_id].proof_system,
                    model_commitment: a.miners@[s.miner_id].model_commitment,
                    min_proof_size_bytes: bounds.min_proof_size_bytes,
                    max_proof_size_bytes: bounds.max_proof_size_bytes,
                    max_verification_latency_ms: bounds.max_verification_latency_ms,
                },
            )
        }
    }

    /// Checks a proof submission against its request and the registry, returning the policy
    /// the proof is verified under. `assignment_commitment` is the request-route commitment
    /// of the submission's request, subnet, miner, validator and the caller's blinding.
    pub fn validate_submission_for_request(
        &self,
        submission: &InferenceProofSubmission,
        assignment_commitment: &Commitment,
        envelope: &ProofEnvelopeWitness,
        now: BlockNumber,
        bounds: SubmissionBounds,
    ) -> (r: Result<ProofVerificationPolicy, ChainRuleError>)
        ensures
            r == Self::spec_validate_submission(*self, *submission, *assignment_commitment, *envelope, now, bounds),
    {
        let s = *submission;
        if commitment_is_zero(&s.input_commitment) || commitment_is_zero(&s.output_commitment)
            || commitment_is_zero(&s.model_commitment) || commitment_is_zero(&s.proof_commitment)
            || commitment_is_zero(&envelope.journal_commitment) || commitment_is_zero(
            &envelope.image_id,
        ) {
            return Err(ChainRuleError::MissingCommitment);
        }
        if !envelope.verifier_supports_proof_system {
            return Err(ChainRuleError::ProofSystemMismatch);
        }
        if self.proof_records.contains_key(&s.request_id) {
            return Err(ChainRuleError::DuplicateProof);
        }
        let request = match self.requests.get(&s.request_id) {
            Some(q) => *q,
            None => return Err(ChainRuleError::UnknownRequest),
        };
        if request.status != InferenceRequestStatus::Pending {
            return Err(ChainRuleError::RequestAlreadySettled);
        }
        if request.subnet_id != s.subnet_id || !commitments_equal(
            &request.input_commitment,
            &s.input_commitment,
        ) {
            return Err(ChainRuleError::RequestMismatch);
        }
        if !commitments_equal(&request.assignment_commitment, assignment_commitment) {
            return Err(ChainRuleError::AssignmentMismatch);
        }
        let subnet = match self.subnets.get(&s.subnet_id) {
            Some(x) => *x,
            None => return Err(ChainRuleError::UnknownSubnet),
        };
        if subnet.proof_system != s.proof_system {
            return Err(ChainRuleError::ProofSystemMismatch);
        }
        if s.proof_size_bytes < bounds.min_proof_size_bytes || s.proof_size_bytes
            > bounds.max_proof_size_bytes {
            return Err(ChainRuleError::InvalidProofSize);
        }
        if s.verification_latency_ms > bounds.max_verification_latency_ms {
            return Err(ChainRuleError::LatencyExceeded);
        }
        match ensure_submission_fresh(s.submitted_at, now, bounds.max_proof_submission_age_blocks) {
            Ok(()) => {},
            Err(e) => return Err(e),
        }
        if !commitments_equal(&envelope.journal_commitment, &envelope.transcript_commitment) {
            return Err(ChainRuleError::ProofTranscriptMismatch);
        }
        let miner = match self.miners.get(&s.miner_id) {
            Some(m) => *m,
            None => return Err(ChainRuleError::UnknownMiner),
        };
        if miner.subnet_id != s.subnet_id || miner.status != RegistryStatus::Active {
            return Err(ChainRuleError::NotActive);
        }
        if !commitments_equal(&miner.model_commitment, &s.model_commitment) {
            return Err(ChainRuleError::ModelCommitmentMismatch);
        }
        let validator = match self.validators.get(&s.validator_id) {
            Some(v) => *v,
            None => return Err(ChainRuleError::UnknownValidator),
        };
        if validator.subnet_id != s.subnet_id || validator.status != RegistryStatus::Active {
            return Err(ChainRuleError::NotActive);
        }
        if commitments_equal(&miner.operator_commitment, &validator.operator_commitment) {
            return Err(ChainRuleError::SelfValidation);
        }
        if !self.miner_identities.contains_key(&s.miner_id) || !self.validator_identities.contains_key(
            &s.validator_id,
        ) {
            return Err(ChainRuleError::MissingSignatureBundle);
        }
        Ok(
            ProofVerificationPolicy {
                proof_system: subnet.proof_system,
                model_commitment: miner.model_commitment,
                min_proof_size_bytes: bounds.min_proof_size_bytes,
                max_proof_size_bytes: bounds.max_proof_size_bytes,
                max_verification_latency_ms: bounds.max_verification_latency_ms,
            },
        )
    }
}

/// The routing index of `subnet` in `indexes` (empty when none is stored).
pub open spec fn index_of(indexes: Map<SubnetId, Vec<u64>>, subnet: SubnetId) -> Seq<u64> {
    if indexes.contains_key(subnet) {
        indexes[subnet]@
    } else {
        Seq::empty()
    }
}

/// Why adding `id` to the routing index of `subnet` fails: the index is full and does not
/// list it yet.
pub open spec fn index_insert_error(
    indexes: Map<SubnetId, Vec<u64>>,
    subnet: SubnetId,
    id: u64,
    capacity: u32,
    too_many: ChainRuleError,
) -> Option<ChainRuleError> {
    if !index_of(indexes, subnet).contains(id) && index_of(indexes, subnet).len() + 1 > capacity {
        Some(too_many)
    } else {
        None
    }
}

/// `after` is `before` with `id` added, in order, to the routing index of `subnet`.
pub open spec fn index_inserted(
    before: Map<SubnetId, Vec<u64>>,
    after: Map<SubnetId, Vec<u64>>,
    subnet: SubnetId,
    id: u64,
) -> bool {
    if index_of(before, subnet).contains(id) {
        after == before
    } else {
        &&& after.contains_key(subnet)
        &&& sorted_ids(after[subnet]@)
        &&& after[subnet]@.to_multiset() == index_of(before, subnet).push(id).to_multiset()
        &&& after.remove(subnet) == before.remove(subnet)
    }
}

/// `after` is `before` with `id` dropped from the routing index of `subnet`.
pub open spec fn index_removed(
    before: Map<SubnetId, Vec<u64>>,
    after: Map<SubnetId, Vec<u64>>,
    subnet: SubnetId,
    id: u64,
) -> bool {
    &&& after.contains_key(subnet)
    &&& after[subnet]@ == without_id(index_of(before, subnet), id)
    &&& after.remove(subnet) == before.remove(subnet)
}

pub(crate) fn stored_index(indexes: &BTreeMap<SubnetId, Vec<u64>>, subnet: SubnetId, id: u64) -> (r: (bool, usize))
    ensures
        r.0 == index_of(indexes@, subnet).contains(id),
        r.1 == index_of(indexes@, subnet).len(),
{
    match indexes.get(&subnet) {
        Some(ids) => (lists_id(ids, id), ids.len()),
        None => (false, 0),
    }
}

fn take_index(indexes: &mut BTreeMap<SubnetId, Vec<u64>>, subnet: SubnetId) -> (r: Vec<u64>)
    ensures
        r@ == index_of(old(indexes)@, subnet),
        final(indexes)@ == old(indexes)@.remove(subnet),
{
    match indexes.remove(&subnet) {
        Some(ids) => ids,
        None => Vec::new(),
    }
}

pub(crate) fn index_insert(
    indexes: &mut BTreeMap<SubnetId, Vec<u64>>,
    subnet: SubnetId,
    id: u64,
    capacity: u32,
    too_many: ChainRuleError,
) -> (r: Result<(), ChainRuleError>)
    ensures
        match index_insert_error(old(indexes)@, subnet, id, capacity, too_many) {
            Some(e) => r == Err::<(), ChainRuleError>(e) && final(indexes)@ == old(indexes)@,
            None => r == Ok::<(), ChainRuleError>(()) && index_inserted(
                old(indexes)@,
                final(indexes)@,
                subnet,
                id,
            ),
        },
{
    let (listed, len) = stored_index(indexes, subnet, id);
    if listed {
        return Ok(());
    }
    if len >= capacity as usize {
        return Err(too_many);
    }
    let ghost before = indexes@;
    let mut ids = take_index(indexes, subnet);
    let inserted = insert_sorted_id(&mut ids, id, capacity, RoutingIndexError::TooManyActiveMiners);
    indexes.insert(subnet, ids);
    proof {
        assert(indexes@.remove(subnet) =~= before.remove(subnet));
    }
    Ok(())
}

pub(crate) fn index_remove(indexes: &mut BTreeMap<SubnetId, Vec<u64>>, subnet: SubnetId, id: u64)
    ensures
        index_removed(old(indexes)@, final(indexes)@, subnet, id),
{
    let ghost before = indexes@;
    let mut ids = take_index(indexes, subnet);
    remove_indexed_id(&mut ids, id);
    let ghost kept = ids@;
    indexes.insert(subnet, ids);
    proof {
        assert(indexes@[subnet]@ == kept);
        assert(indexes@.remove(subnet) =~= before.remove(subnet));
    }
}

/// The signature commitments a bundle must carry for an identity challenge: for each present
/// signature, the binding of that signature to the challenge.
#[derive(Clone, Copy, Debug, PartialEq, Eq)]
pub struct SignatureBindings {
    pub classical: Commitment,
    pub post_quantum: Commitment,
}

/// Whether `bundle` is valid under `mode` and each of its signatures carries its binding.
pub open spec fn bundle_bound(bundle: SignatureBundle, mode: SignatureMode, bindings: SignatureBindings) -> bool {
    &&& bundle_error(mode, bundle) is None
    &&& (bundle.classical matches Some(c) ==> c.signature_commitment == bindings.classical)
    &&& (bundle.post_quantum matches Some(p) ==> p.signature_commitment == bindings.post_quantum)
}

pub(crate) fn check_bundle_bound(bundle: SignatureBundle, mode: SignatureMode, bindings: &SignatureBindings) -> (r: bool)
    ensures
        r == bundle_bound(bundle, mode, *bindings),
{
    match SignaturePolicy::new(mode).validate(bundle) {
        Err(_) => return false,
        Ok(_) => {},
    }
    let classical_ok = match bundle.classical {
        Some(c) => commitments_equal(&c.signature_commitment, &bindings.classical),
        None => true,
    };
    let post_quantum_ok = match bundle.post_quantum {
        Some(p) => commitments_equal(&p.signature_commitment, &bindings.post_quantum),
        None => true,
    };
    classical_ok && post_quantum_ok
}

/// Whether an optional commitment is present and all zeros.
pub open spec fn zero_if_present(c: Option<Commitment>) -> bool {
    c matches Some(x) && is_zero_commitment(x)
}

fn check_zero_if_present(c: &Option<Commitment>) -> (r: bool)
    ensures
        r == zero_if_present(*c),
{
    match c {
        Some(x) => commitment_is_zero(x),
        None => false,
    }
}

/// What an identity update hands in: the identity challenge computed for the update's
/// participant, operator and commitments, the bindings of the bundle's signatures to that
/// challenge, and the capital commitments of the participant in the active and pending states.
#[derive(Clone, Copy, Debug, PartialEq, Eq)]
pub struct IdentityUpdateWitness {
    pub challenge: Commitment,
    pub bindings: SignatureBindings,
    pub active_capital_commitment: Commitment,
    pub pending_capital_commitment: Commitment,
}

impl ChainRegistry {
    /// Why a validator identity update fails, if it does.
    pub open spec fn validator_identity_error(
        a: ChainRegistry,
        caller: AccountCommitments,
        validator_id: ValidatorId,
        shielded: Option<Commitment>,
        endpoint: Option<Commitment>,
        bundle: SignatureBundle,
        mode: SignatureMode,
        w: IdentityUpdateWitness,
        capacity: u32,
    ) -> Option<ChainRuleError> {
        if !a.validators@.contains_key(validator_id) {
            Some(ChainRuleError::UnknownValidator)
        } else {
            let v = a.validators@[validator_id];
            if !account_matches(v.operator_commitment, caller) {
                Some(ChainRuleError::NotOperator)
            } else if zero_if_present(shielded) || zero_if_present(endpoint) {
                Some(ChainRuleError::MissingCommitment)
            } else if pending_of(a.pending_validator_requests@, validator_id) != 0 {
                Some(ChainRuleError::PendingAssignedRequests)
            } else if shielded is Some || endpoint is Some {
                if !bundle_bound(bundle, mode, w.bindings) {
                    Some(ChainRuleError::InvalidSignatureBundle)
                } else if v.status == RegistryStatus::Pending && !a.validator_stakes@.contains_key(
                    validator_id,
                ) {
                    Some(ChainRuleError::MissingCapitalRecord)
                } else if v.status != RegistryStatus::Active && v.status != RegistryStatus::Pending {
                    Some(ChainRuleError::InvalidValidatorStatus)
                } else {
                    index_insert_error(
                        a.active_validators@,
                        v.subnet_id,
                        validator_id,
                        capacity,
                        ChainRuleError::TooManyActiveValidators,
                    )
                }
            } else if a.validator_identities@.contains_key(validator_id) && !bundle_bound(
                bundle,
                mode,
                w.bindings,
            ) {
                Some(ChainRuleError::InvalidSignatureBundle)
            } else {
                None
            }
        }
    }

    /// What `set_validator_identity_commitments` does, taking `a` to `b` with result `r`:
    /// setting an identity records it with its bundle and challenge, activates a pending
    /// validator and indexes it; clearing it drops the record and sends an active validator
    /// back to pending, out of the index.
    pub open spec fn set_validator_identity_post(
        a: ChainRegistry,
        b: ChainRegistry,
        caller: AccountCommitments,
        validator_id: ValidatorId,
        shielded: Option<Commitment>,
        endpoint: Option<Commitment>,
        bundle: SignatureBundle,
        mode: SignatureMode,
        w: IdentityUpdateWitness,
        capacity: u32,
        r: Result<(), ChainRuleError>,
    ) -> bool {
        match Self::validator_identity_error(a, caller, validator_id, shielded, endpoint, bundle, mode, w, capacity) {
            Some(e) => r == Err::<(), ChainRuleError>(e) && b == a,
            None => {
                let v = a.validators@[validator_id];
                &&& r == Ok::<(), ChainRuleError>(())
                &&& Self::same_counts(a, b)
                &&& b.miner_bonds@ == a.miner_bonds@ && b.validator_stakes@ == a.validator_stakes@
                &&& b.total_burned == a.total_burned && b.subnets@ == a.subnets@
                &&& b.miners@ == a.miners@ && b.miner_identities@ == a.miner_identities@
                &&& b.active_miners@ == a.active_miners@ && b.health == a.health
                &&& b.requests@ == a.requests@ && b.status_counts == a.status_counts
                &&& b.next_request_id == a.next_request_id && b.totals == a.totals
                &&& b.proof_records@ == a.proof_records@
                &&& b.pending_miner_requests@ == a.pending_miner_requests@
                &&& b.pending_validator_requests@ == a.pending_validator_requests@
                &&& if shielded is Some || endpoint is Some {
                    &&& b.validator_identities@ == a.validator_identities@.insert(
                        validator_id,
                        IdentityRecord {
                            commitments: ChainIdentityCommitments {
                                shielded_identity_commitment: shielded,
                                endpoint_commitment: endpoint,
                            },
                            bundle,
                            challenge: w.challenge,
                        },
                    )
                    &&& b.validators@ == a.validators@.insert(
                        validator_id,
                        ChainValidator {
                            status: RegistryStatus::Active,
                            stake_commitment: w.active_capital_commitment,
                            ..v
                        },
                    )
                    &&& index_inserted(a.active_validators@, b.active_validators@, v.subnet_id, validator_id)
                } else {
                    &&& b.validator_identities@ == a.validator_identities@.remove(validator_id)
                    &&& if v.status == RegistryStatus::Active {
                        &&& b.validators@ == a.validators@.insert(
                            validator_id,
                            ChainValidator {
                                status: RegistryStatus::Pending,
                                stake_commitment: w.pending_capital_commitment,
                                ..v
                            },
                        )
                        &&& index_removed(a.active_validators@, b.active_validators@, v.subnet_id, validator_id)
                    } else {
                        &&& b.validators@ == a.validators@
                        &&& b.active_validators@ == a.active_validators@
                    }
                }
            },
        }
    }

    /// Records or clears a validator's identity commitments on behalf of its operator
    /// `caller`; an index holds at most `capacity` validators.
    pub fn set_validator_identity_commitments(
        &mut self,
        caller: AccountCommitments,
        validator_id: ValidatorId,
        shielded: Option<Commitment>,
        endpoint: Option<Commitment>,
        bundle: SignatureBundle,
        mode: SignatureMode,
        w: IdentityUpdateWitness,
        capacity: u32,
    ) -> (r: Result<(), ChainRuleError>)
        requires
            old(self).wf(),
        ensures
            final(self).wf(),
            Self::set_validator_identity_post(
                *old(self),
                *final(self),
                caller,
                validator_id,
                shielded,
                endpoint,
                bundle,
                mode,
                w,
                capacity,
                r,
            ),
    {
        let v = match self.validators.get(&validator_id) {
            Some(v) => *v,
            None => return Err(ChainRuleError::UnknownValidator),
        };
        if !check_account(&v.operator_commitment, &caller) {
            return Err(ChainRuleError::NotOperator);
        }
        if check_zero_if_present(&shielded) || check_zero_if_present(&endpoint) {
            return Err(ChainRuleError::MissingCommitment);
        }
        let pending: u32 = match self.pending_validator_requests.get(&validator_id) {
            Some(c) => *c,
            None => 0,
        };
        if pending != 0 {
            return Err(ChainRuleError::PendingAssignedRequests);
        }
        if shielded.is_some() || endpoint.is_some() {
            if !check_bundle_bound(bundle, mode, &w.bindings) {
                return Err(ChainRuleError::InvalidSignatureBundle);
            }
            if v.status == RegistryStatus::Pending && !self.validator_stakes.contains_key(&validator_id) {
                return Err(ChainRuleError::MissingCapitalRecord);
            }
            if v.status != RegistryStatus::Active && v.status != RegistryStatus::Pending {
                return Err(ChainRuleError::InvalidValidatorStatus);
            }
            let (listed, len) = stored_index(&self.active_validators, v.subnet_id, validator_id);
            if !listed && len >= capacity as usize {
                return Err(ChainRuleError::TooManyActiveValidators);
            }
            let _ = index_insert(
                &mut self.active_validators,
                v.subnet_id,
                validator_id,
                capacity,
                ChainRuleError::TooManyActiveValidators,
            );
            self.validator_identities.insert(
                validator_id,
                IdentityRecord {
                    commitments: ChainIdentityCommitments {
                        shielded_identity_commitment: shielded,
                        endpoint_commitment: endpoint,
                    },
                    bundle,
                    challenge: w.challenge,
                },
            );
            self.validators.insert(
                validator_id,
                ChainValidator {
                    status: RegistryStatus::Active,
                    stake_commitment: w.active_capital_commitment,
                    ..v
                },
            );
        } else {
            if self.validator_identities.contains_key(&validator_id) && !check_bundle_bound(
                bundle,
                mode,
                &w.bindings,
            ) {
                return Err(ChainRuleError::InvalidSignatureBundle);
            }
            self.validator_identities.remove(&validator_id);
            if v.status == RegistryStatus::Active {
                index_remove(&mut self.active_validators, v.subnet_id, validator_id);
                self.validators.insert(
                    validator_id,
                    ChainValidator {
                        status: RegistryStatus::Pending,
                        stake_commitment: w.pending_capital_commitment,
                        ..v
                    },
                );
            }
        }
        Ok(())
    }

    /// Why a miner identity update fails, if it does.
    pub open spec fn miner_identity_error(
        a: ChainRegistry,
        caller: AccountCommitments,
        miner_id: MinerId,
        shielded: Option<Commitment>,
        endpoint: Option<Commitment>,
        bundle: SignatureBundle,
        mode: SignatureMode,
        w: IdentityUpdateWitness,
        capacity: u32,
    ) -> Option<ChainRuleError> {
        if !a.miners@.contains_key(miner_id) {
            Some(ChainRuleError::UnknownMiner)
        } else {
            let m = a.miners@[miner_id];
            if !account_matches(m.operator_commitment, caller) {
                Some(ChainRuleError::NotOperator)
            } else if zero_if_present(shielded) || zero_if_present(endpoint) {
                Some(ChainRuleError::MissingCommitment)
            } else if pending_of(a.pending_miner_requests@, miner_id) != 0 {
                Some(ChainRuleError::PendingAssignedRequests)
            } else if shielded is Some || endpoint is Some {
                if !bundle_bound(bundle, mode, w.bindings) {
                    Some(ChainRuleError::InvalidSignatureBundle)
                } else if m.status == RegistryStatus::Active {
                    index_insert_error(
                        a.active_miners@,
                        m.subnet_id,
                        miner_id,
                        capacity,
                        ChainRuleError::TooManyActiveMiners,
                    )
                } else {
                    None
                }
            } else if a.miner_identities@.contains_key(miner_id) && !bundle_bound(
                bundle,
                mode,
                w.bindings,
            ) {
                Some(ChainRuleError::InvalidSignatureBundle)
            } else {
                None
            }
        }
    }

    /// What `set_miner_identity_commitments` does, taking `a` to `b` with result `r`:
    /// setting an identity records it with its bundle and challenge and indexes an active
    /// miner; clearing it drops the record and takes an active miner out of the index.
    pub open spec fn set_miner_identity_post(
        a: ChainRegistry,
        b: ChainRegistry,
        caller: AccountCommitments,
        miner_id: MinerId,
        shielded: Option<Commitment>,
        endpoint: Option<Commitment>,
        bundle: SignatureBundle,
        mode: SignatureMode,
        w: IdentityUpdateWitness,
        capacity: u32,
        r: Result<(), ChainRuleError>,
    ) -> bool {
        match Self::miner_identity_error(a, caller, miner_id, shielded, endpoint, bundle, mode, w, capacity) {
            Some(e) => r == Err::<(), ChainRuleError>(e) && b == a,
            None => {
                let m = a.miners@[miner_id];
                &&& r == Ok::<(), ChainRuleError>(())
                &&& Self::same_counts(a, b)
                &&& b.miner_bonds@ == a.miner_bonds@ && b.validator_stakes@ == a.validator_stakes@
                &&& b.total_burned == a.total_burned && b.subnets@ == a.subnets@
                &&& b.miners@ == a.miners@ && b.validators@ == a.validators@
                &&& b.validator_identities@ == a.validator_identities@
                &&& b.active_validators@ == a.active_validators@ && b.health == a.health
                &&& b.requests@ == a.requests@ && b.status_counts == a.status_counts
                &&& b.next_request_id == a.next_request_id && b.totals == a.totals
                &&& b.proof_records@ == a.proof_records@
                &&& b.pending_miner_requests@ == a.pending_miner_requests@
                &&& b.pending_validator_requests@ == a.pending_validator_requests@
                &&& if shielded is Some || endpoint is Some {
                    &&& b.miner_identities@ == a.miner_identities@.insert(
                        miner_id,
                        IdentityRecord {
                            commitments: ChainIdentityCommitments {
                                shielded_identity_commitment: shielded,
                                endpoint_commitment: endpoint,
                            },
                            bundle,
                            challenge: w.challenge,
                        },
                    )
                    &&& if m.status == RegistryStatus::Active {
                        index_inserted(a.active_miners@, b.active_miners@, m.subnet_id, miner_id)
                    } else {
                        b.active_miners@ == a.active_miners@
                    }
                } else {
                    &&& b.miner_identities@ == a.miner_identities@.remove(miner_id)
                    &&& if m.status == RegistryStatus::Active && index_of(
                        a.active_miners@,
                        m.subnet_id,
                    ).contains(miner_id) {
                        index_removed(a.active_miners@, b.active_miners@, m.subnet_id, miner_id)
                    } else {
                        b.active_miners@ == a.active_miners@
                    }
                }
            },
        }
    }

    /// Records or clears a miner's identity commitments on behalf of its operator `caller`;
    /// an index holds at most `capacity` miners.
    pub fn set_miner_identity_commitments(
        &mut self,
        caller: AccountCommitments,
        miner_id: MinerId,
        shielded: Option<Commitment>,
        endpoint: Option<Commitment>,
        bundle: SignatureBundle,
        mode: SignatureMode,
        w: IdentityUpdateWitness,
        capacity: u32,
    ) -> (r: Result<(), ChainRuleError>)
        requires
            old(self).wf(),
        ensures
            final(self).wf(),
            Self::set_miner_identity_post(
                *old(self),
                *final(self),
                caller,
                miner_id,
                shielded,
                endpoint,
                bundle,
                mode,
                w,
                capacity,
                r,
            ),
    {
        let m = match self.miners.get(&miner_id) {
            Some(m) => *m,
            None => return Err(ChainRuleError::UnknownMiner),
        };
        if !check_account(&m.operator_commitment, &caller) {
            return Err(ChainRuleError::NotOperator);
        }
        if check_zero_if_present(&shielded) || check_zero_if_present(&endpoint) {
            return Err(ChainRuleError::MissingCommitment);
        }
        let pending: u32 = match self.pending_miner_requests.get(&miner_id) {
            Some(c) => *c,
            None => 0,
        };
        if pending != 0 {
            return Err(ChainRuleError::PendingAssignedRequests);
        }
        if shielded.is_some() || endpoint.is_some() {
            if !check_bundle_bound(bundle, mode, &w.bindings) {
                return Err(ChainRuleError::InvalidSignatureBundle);
            }
            if m.status == RegistryStatus::Active {
                let (listed, len) = stored_index(&self.active_miners, m.subnet_id, miner_id);
                if !listed && len >= capacity as usize {
                    return Err(ChainRuleError::TooManyActiveMiners);
                }
                let _ = index_insert(
                    &mut self.active_miners,
                    m.subnet_id,
                    miner_id,
                    capacity,
                    ChainRuleError::TooManyActiveMiners,
                );
            }
            self.miner_identities.insert(
                miner_id,
                IdentityRecord {
                    commitments: ChainIdentityCommitments {
                        shielded_identity_commitment: shielded,
                        endpoint_commitment: endpoint,
                    },
                    bundle,
                    challenge: w.challenge,
                },
            );
        } else {
            if self.miner_identities.contains_key(&miner_id) && !check_bundle_bound(
                bundle,
                mode,
                &w.bindings,
            ) {
                return Err(ChainRuleError::InvalidSignatureBundle);
            }
            let (indexed, _) = stored_index(&self.active_miners, m.subnet_id, miner_id);
            self.miner_identities.remove(&miner_id);
            if m.status == RegistryStatus::Active && indexed {
                index_remove(&mut self.active_miners, m.subnet_id, miner_id);
            }
        }
        Ok(())
    }
}

} // verus!

verus! {

/// The keys of `m`, each once, in the order the map holds them.
pub fn stored_keys<K: Copy, V>(m: &BTreeMap<K, V>) -> (r: Vec<K>)
    requires
        vstd::std_specs::btree::key_obeys_cmp_spec::<K>(),
    ensures
        r@.to_set() == m@.dom(),
        r@.no_duplicates(),
{
    let mut r: Vec<K> = Vec::new();
    let ghost ks = vstd::std_specs::iter::IteratorSpec::remaining(&vstd::std_specs::btree::spec_keys_iter(m));
    for k in it: m.keys()
        invariant
            it.seq() == ks,
            r@ == ks.take(it.index()).map_values(|x: &K| *x),
    {
        r.push(*k);
        proof {
            assert(r@ =~= it.seq().take(it.index() + 1).map_values(|x: &K| *x));
        }
    }
    proof {
        assert(r@ =~= ks.unref());
    }
    r
}

} // verus!

verus! {

/// Whether `s` is strictly increasing.
pub open spec fn strictly_increasing(s: Seq<u64>) -> bool {
    forall|i: int, j: int| 0 <= i < j < s.len() ==> s[i] < s[j]
}

/// The identifiers of `ids`, in increasing order.
pub open spec fn ids_in_order(ids: Set<u64>) -> Seq<u64> {
    choose|s: Seq<u64>| s.to_set() == ids && strictly_increasing(s)
}

proof fn lemma_drop_last_to_set(a: Seq<u64>)
    requires
        a.len() > 0,
        strictly_increasing(a),
    ensures
        a.drop_last().to_set() == a.to_set().remove(a.last()),
{
    let d = a.drop_last();
    assert forall|y: u64| d.to_set().contains(y) <==> a.to_set().remove(a.last()).contains(y) by {
        if d.contains(y) {
            let i = choose|i: int| 0 <= i < d.len() && d[i] == y;
            assert(a[i] == y && a[i] < a[a.len() - 1]);
        }
        if a.contains(y) && y != a.last() {
            let i = choose|i: int| 0 <= i < a.len() && a[i] == y;
            assert(i != a.len() - 1);
            assert(d[i] == y);
        }
    }
    assert(d.to_set() =~= a.to_set().remove(a.last()));
}

/// Two strictly increasing sequences of the same identifiers are the same sequence.
proof fn lemma_increasing_unique(a: Seq<u64>, b: Seq<u64>)
    requires
        strictly_increasing(a),
        strictly_increasing(b),
        a.to_set() == b.to_set(),
    ensures
        a == b,
    decreases a.len(),
{
    if a.len() == 0 {
        if b.len() > 0 {
            assert(b.to_set().contains(b[0]));
            assert(!a.contains(b[0]));
        }
        assert(a =~= b);
    } else if b.len() == 0 {
        assert(a.to_set().contains(a[0]));
        assert(!b.contains(a[0]));
    } else {
        let x = a.last();
        let y = b.last();
        assert(a.to_set().contains(x)) by {
            assert(a[a.len() - 1] == x);
        }
        assert(b.to_set().contains(y)) by {
            assert(b[b.len() - 1] == y);
        }
        let j = choose|j: int| 0 <= j < b.len() && b[j] == x;
        let i = choose|i: int| 0 <= i < a.len() && a[i] == y;
        assert(x <= y) by {
            if j < b.len() - 1 {
                assert(b[j] < b[b.len() - 1]);
            }
        }
        assert(y <= x) by {
            if i < a.len() - 1 {
                assert(a[i] < a[a.len() - 1]);
            }
        }
        lemma_drop_last_to_set(a);
        lemma_drop_last_to_set(b);
        lemma_increasing_unique(a.drop_last(), b.drop_last());
        assert(a =~= a.drop_last().push(x));
        assert(b =~= b.drop_last().push(y));
    }
}

/// The identifiers of `m`, in increasing order.
pub fn stored_ids<V>(m: &BTreeMap<u64, V>) -> (r: Vec<u64>)
    ensures
        r@ == ids_in_order(m@.dom()),
        r@.to_set() == m@.dom(),
        r@.no_duplicates(),
        strictly_increasing(r@),
{
    let mut r: Vec<u64> = Vec::new();
    let ghost ks = vstd::std_specs::iter::IteratorSpec::remaining(&vstd::std_specs::btree::spec_keys_iter(m));
    for k in it: m.keys()
        invariant
            it.seq() == ks,
            r@ == ks.take(it.index()).map_values(|x: &u64| *x),
    {
        r.push(*k);
        proof {
            assert(r@ =~= it.seq().take(it.index() + 1).map_values(|x: &u64| *x));
        }
    }
    proof {
        assert(r@ =~= ks.unref());
        assert(vstd::std_specs::btree::increasing_seq(ks));
        assert forall|i: int, j: int| 0 <= i < j < r@.len() implies r@[i] < r@[j] by {
            assert(vstd::std_specs::cmp::OrdSpec::cmp_spec(&ks[i], &ks[j]) is Less);
        }
        let chosen = ids_in_order(m@.dom());
        assert(chosen.to_set() == m@.dom() && strictly_increasing(chosen));
        lemma_increasing_unique(r@, chosen);
    }
    r
}

} // verus!

verus! {

impl ChainRegistry {
    /// A submission is accepted only when all of its commitments and those of its proof envelope
    /// are set, the envelope's verifier supports its proof system and its journal commits to its
    /// transcript; its request is stored, pending, unproved and matches its subnet, input and
    /// route; it uses its subnet's proof system; its proof size lies within the bounds, its
    /// latency within the limit, and it was submitted no later than `now` and within the age
    /// limit; its miner serves the subnet actively with the committed model, its validator serves
    /// the subnet actively under another operator, and both have their identities recorded. The
    /// policy handed to the verifier is the subnet's proof system, the miner's model and the
    /// bounds.
    pub proof fn lemma_accepted_submission_requirements(
        a: ChainRegistry,
        s: InferenceProofSubmission,
        assignment_commitment: Commitment,
        envelope: ProofEnvelopeWitness,
        now: BlockNumber,
        bounds: SubmissionBounds,
    )
        ensures
            Self::spec_validate_submission(a, s, assignment_commitment, envelope, now, bounds) matches Ok(
                policy,
            ) ==> {
                &&& !is_zero_commitment(s.input_commitment)
                &&& !is_zero_commitment(s.output_commitment)
                &&& !is_zero_commitment(s.model_commitment)
                &&& !is_zero_commitment(s.proof_commitment)
                &&& !is_zero_commitment(envelope.journal_commitment)
                &&& !is_zero_commitment(envelope.image_id)
                &&& envelope.verifier_supports_proof_system
                &&& envelope.journal_commitment == envelope.transcript_commitment
                &&& !a.proof_records@.contains_key(s.request_id)
                &&& a.requests@.contains_key(s.request_id)
                &&& a.requests@[s.request_id].status == InferenceRequestStatus::Pending
                &&& a.requests@[s.request_id].subnet_id == s.subnet_id
                &&& a.requests@[s.request_id].input_commitment == s.input_commitment
                &&& a.requests@[s.request_id].assignment_commitment == assignment_commitment
                &&& a.subnets@.contains_key(s.subnet_id)
                &&& a.subnets@[s.subnet_id].proof_system == s.proof_system
                &&& bounds.min_proof_size_bytes <= s.proof_size_bytes
                &&& s.proof_size_bytes <= bounds.max_proof_size_bytes
                &&& s.verification_latency_ms <= bounds.max_verification_latency_ms
                &&& s.submitted_at <= now
                &&& now - bounds.max_proof_submission_age_blocks <= s.submitted_at
                &&& a.miners@.contains_key(s.miner_id)
                &&& a.miners@[s.miner_id].subnet_id == s.subnet_id
                &&& a.miners@[s.miner_id].status == RegistryStatus::Active
                &&& a.miners@[s.miner_id].model_commitment == s.model_commitment
                &&& a.validators@.contains_key(s.validator_id)
                &&& a.validators@[s.validator_id].subnet_id == s.subnet_id
                &&& a.validators@[s.validator_id].status == RegistryStatus::Active
                &&& a.miners@[s.miner_id].operator_commitment
                    != a.validators@[s.validator_id].operator_commitment
                &&& a.miner_identities@.contains_key(s.miner_id)
                &&& a.validator_identities@.contains_key(s.validator_id)
                &&& policy.proof_system == s.proof_system
                &&& policy.model_commitment == s.model_commitment
                &&& policy.min_proof_size_bytes == bounds.min_proof_size_bytes
                &&& policy.max_proof_size_bytes == bounds.max_proof_size_bytes
                &&& policy.max_verification_latency_ms == bounds.max_verification_latency_ms
            },
            s.proof_size_bytes < bounds.min_proof_size_bytes || s.proof_size_bytes
                > bounds.max_proof_size_bytes ==> Self::spec_validate_submission(
                a,
                s,
                assignment_commitment,
                envelope,
                now,
                bounds,
            ) is Err,
    {
        crate::rules::lemma_freshness_window(s.submitted_at, now, bounds.max_proof_submission_age_blocks);
    }

    /// A request opens only on a route whose miner and validator are registered on the
    /// request's subnet, active, run by different operators and identity-bound, under the next
    /// request id; it is stored pending, both participants count one more pending request and
    /// the escrow total grows by the payment.
    pub proof fn lemma_opened_request_requirements(
        a: ChainRegistry,
        b: ChainRegistry,
        request: ChainInferenceRequest,
        miner_id: MinerId,
        validator_id: ValidatorId,
        payment: Balance,
        r: Result<(), ChainRuleError>,
    )
        requires
            Self::open_request_post(a, b, request, miner_id, validator_id, payment, r),
            r is Ok,
        ensures
            a.miners@.contains_key(miner_id),
            a.validators@.contains_key(validator_id),
            a.miners@[miner_id].subnet_id == request.subnet_id,
            a.validators@[validator_id].subnet_id == request.subnet_id,
            a.miners@[miner_id].status == RegistryStatus::Active,
            a.validators@[validator_id].status == RegistryStatus::Active,
            a.miners@[miner_id].operator_commitment != a.validators@[validator_id].operator_commitment,
            a.miner_identities@.contains_key(miner_id),
            a.validator_identities@.contains_key(validator_id),
            request.request_id == a.next_request_id,
            b.next_request_id == a.next_request_id + 1,
            b.requests@[request.request_id].status == InferenceRequestStatus::Pending,
            b.requests@[request.request_id].subnet_id == request.subnet_id,
            pending_of(b.pending_miner_requests@, miner_id) == pending_of(a.pending_miner_requests@, miner_id) + 1,
            pending_of(b.pending_validator_requests@, validator_id) == pending_of(
                a.pending_validator_requests@,
                validator_id,
            ) + 1,
            b.totals.total_inference_escrowed == a.totals.total_inference_escrowed + payment,
            b.status_counts.pending == a.status_counts.pending + 1,
    {
    }
}

} // verus!

verus! {

impl ChainRegistry {
    /// An identity update goes ahead only for the named operator's participant, with no
    /// commitment given as all zeros and no pending assignment; setting an identity needs a
    /// signature bundle valid under the mode and bound to the update's challenge, and records
    /// exactly the given commitments, bundle and challenge; clearing one removes the record.
    /// A validator whose identity is set becomes active and indexed.
    pub proof fn lemma_identity_update_requirements(
        a: ChainRegistry,
        b: ChainRegistry,
        caller: AccountCommitments,
        id: u64,
        shielded: Option<Commitment>,
        endpoint: Option<Commitment>,
        bundle: SignatureBundle,
        mode: SignatureMode,
        w: IdentityUpdateWitness,
        capacity: u32,
        r: Result<(), ChainRuleError>,
    )
        ensures
            Self::set_miner_identity_post(a, b, caller, id, shielded, endpoint, bundle, mode, w, capacity, r)
                && r is Ok ==> {
                &&& a.miners@.contains_key(id)
                &&& (a.miners@[id].operator_commitment == caller.role
                    || a.miners@[id].operator_commitment == caller.account)
                &&& !(shielded matches Some(c) && is_zero_commitment(c))
                &&& !(endpoint matches Some(c) && is_zero_commitment(c))
                &&& pending_of(a.pending_miner_requests@, id) == 0
                &&& (shielded is Some || endpoint is Some) ==> {
                    &&& bundle_error(mode, bundle) is None
                    &&& b.miner_identities@[id].commitments.shielded_identity_commitment == shielded
                    &&& b.miner_identities@[id].commitments.endpoint_commitment == endpoint
                    &&& b.miner_identities@[id].bundle == bundle
                    &&& b.miner_identities@[id].challenge == w.challenge
                }
                &&& (shielded is None && endpoint is None) ==> !b.miner_identities@.contains_key(id)
            },
            Self::set_validator_identity_post(a, b, caller, id, shielded, endpoint, bundle, mode, w, capacity, r)
                && r is Ok ==> {
                &&& a.validators@.contains_key(id)
                &&& (a.validators@[id].operator_commitment == caller.role
                    || a.validators@[id].operator_commitment == caller.account)
                &&& !(shielded matches Some(c) && is_zero_commitment(c))
                &&& !(endpoint matches Some(c) && is_zero_commitment(c))
                &&& pending_of(a.pending_validator_requests@, id) == 0
                &&& (shielded is Some || endpoint is Some) ==> {
                    &&& bundle_error(mode, bundle) is None
                    &&& b.validator_identities@[id].commitments.shielded_identity_commitment == shielded
                    &&& b.validator_identities@[id].commitments.endpoint_commitment == endpoint
                    &&& b.validator_identities@[id].bundle == bundle
                    &&& b.validator_identities@[id].challenge == w.challenge
                    &&& b.validators@[id].status == RegistryStatus::Active
                    &&& index_of(b.active_validators@, a.validators@[id].subnet_id).contains(id)
                }
                &&& (shielded is None && endpoint is None) ==> !b.validator_identities@.contains_key(id)
            },
    {
        if Self::set_validator_identity_post(a, b, caller, id, shielded, endpoint, bundle, mode, w, capacity, r)
            && r is Ok && (shielded is Some || endpoint is Some) {
            let v = a.validators@[id];
            if !index_of(a.active_validators@, v.subnet_id).contains(id) {
                let after = b.active_validators@[v.subnet_id]@;
                after.to_multiset_ensures();
                index_of(a.active_validators@, v.subnet_id).push(id).to_multiset_ensures();
                assert(index_of(a.active_validators@, v.subnet_id).push(id).contains(id)) by {
                    assert(index_of(a.active_validators@, v.subnet_id).push(id)[index_of(
                        a.active_validators@,
                        v.subnet_id,
                    ).len() as int] == id);
                }
                assert(index_of(a.active_validators@, v.subnet_id).push(id).to_multiset().count(id) > 0);
                assert(after.to_multiset().count(id) > 0);
            }
        }
    }
}

} // verus!
