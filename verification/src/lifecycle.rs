//! Registration and exit on the chain registry: subnets are created by burning, miners are
//! registered by burning and activated by bonding once their identity is bound, validators
//! register with a stake and are activated by their identity update, and both exit through a
//! cooldown before their capital is released. Commitments the chain computes by hashing are
//! handed in by the caller, and the balance movements (burns, holds, releases) are carried out
//! by the caller as the results say.
use vstd::prelude::*;

use std::collections::BTreeMap;

use crate::registry::{
    bundle_bound, check_bundle_bound, index_insert, index_insert_error, index_inserted,
    index_of, index_remove, index_removed, lookup, pending_of, stored_index, ChainMiner, ChainRegistry,
    ChainSubnet, ChainValidator, IdentityRecord, SignatureBindings,
};
use crate::rules::ChainRuleError;
use crate::settlement::{account_matches, AccountCommitments};
use crate::{
    commitment_is_zero, commitments_equal, is_zero_commitment, Balance, BlockNumber, Commitment,
    MinerId, ProofSystem, RegistryStatus, SignatureMode, SubnetDomain, SubnetId, ValidatorId,
};

verus! {

broadcast use {vstd::std_specs::btree::group_btree_axioms, vstd::laws_cmp::group_laws_cmp};

/// Whether subnets and miners may be registered with `proof_system`.
pub open spec fn supported_proof_system(proof_system: ProofSystem) -> bool {
    proof_system == ProofSystem::RiscZeroStark || proof_system == ProofSystem::Stark
}

fn is_supported_proof_system(proof_system: ProofSystem) -> (r: bool)
    ensures
        r == supported_proof_system(proof_system),
{
    match proof_system {
        ProofSystem::RiscZeroStark | ProofSystem::Stark => true,
        _ => false,
    }
}

/// The identity challenge a participant's stored record must carry now, with the bindings of
/// its signatures to that challenge under the runtime's signature mode.
#[derive(Clone, Copy, Debug, PartialEq, Eq)]
pub struct IdentityBinding {
    pub challenge: Commitment,
    pub bindings: SignatureBindings,
    pub mode: SignatureMode,
}

/// Why a participant's identity `record` is not bound to its current challenge: none is
/// stored, or it carries another challenge or a bundle not bound to this one.
pub open spec fn identity_binding_error(record: Option<IdentityRecord>, b: IdentityBinding) -> Option<
    ChainRuleError,
> {
    match record {
        None => Some(ChainRuleError::MissingSignatureBundle),
        Some(rec) => if rec.challenge != b.challenge || !bundle_bound(rec.bundle, b.mode, b.bindings) {
            Some(ChainRuleError::InvalidSignatureBundle)
        } else {
            None
        },
    }
}

fn check_identity_binding(records: &BTreeMap<u64, IdentityRecord>, id: u64, b: &IdentityBinding) -> (r:
    Option<ChainRuleError>)
    ensures
        r == identity_binding_error(lookup(records@, id), *b),
{
    match records.get(&id) {
        None => Some(ChainRuleError::MissingSignatureBundle),
        Some(rec) => {
            if !commitments_equal(&rec.challenge, &b.challenge) || !check_bundle_bound(
                rec.bundle,
                b.mode,
                &b.bindings,
            ) {
                Some(ChainRuleError::InvalidSignatureBundle)
            } else {
                None
            }
        },
    }
}

impl ChainRegistry {
    /// Everything but the subnets and the burned total agrees between `a` and `b`.
    pub open spec fn same_but_subnets(a: ChainRegistry, b: ChainRegistry) -> bool {
        &&& b.miner_bonds@ == a.miner_bonds@
        &&& b.validator_stakes@ == a.validator_stakes@
        &&& b.miners@ == a.miners@
        &&& b.validators@ == a.validators@
        &&& b.miner_identities@ == a.miner_identities@
        &&& b.validator_identities@ == a.validator_identities@
        &&& b.active_miners@ == a.active_miners@
        &&& b.active_validators@ == a.active_validators@
        &&& b.pending_miner_requests@ == a.pending_miner_requests@
        &&& b.pending_validator_requests@ == a.pending_validator_requests@
        &&& b.proof_records@ == a.proof_records@
        &&& b.totals == a.totals
        &&& b.health == a.health
        &&& b.requests@ == a.requests@
        &&& b.status_counts == a.status_counts
        &&& b.next_request_id == a.next_request_id
        &&& b.miner_count == a.miner_count
        &&& b.validator_count == a.validator_count
    }

    /// Everything but the miners, their bonds and routing indexes, the burned total and the
    /// miner count agrees between `a` and `b`.
    pub open spec fn same_but_miners(a: ChainRegistry, b: ChainRegistry) -> bool {
        &&& b.validator_stakes@ == a.validator_stakes@
        &&& b.subnets@ == a.subnets@
        &&& b.validators@ == a.validators@
        &&& b.miner_identities@ == a.miner_identities@
        &&& b.validator_identities@ == a.validator_identities@
        &&& b.active_validators@ == a.active_validators@
        &&& b.pending_miner_requests@ == a.pending_miner_requests@
        &&& b.pending_validator_requests@ == a.pending_validator_requests@
        &&& b.proof_records@ == a.proof_records@
        &&& b.totals == a.totals
        &&& b.health == a.health
        &&& b.requests@ == a.requests@
        &&& b.status_counts == a.status_counts
        &&& b.next_request_id == a.next_request_id
        &&& b.subnet_count == a.subnet_count
        &&& b.validator_count == a.validator_count
    }

    /// Everything but the validators, their stakes and routing indexes and the validator count
    /// agrees between `a` and `b`.
    pub open spec fn same_but_validators(a: ChainRegistry, b: ChainRegistry) -> bool {
        &&& b.miner_bonds@ == a.miner_bonds@
        &&& b.total_burned == a.total_burned
        &&& b.subnets@ == a.subnets@
        &&& b.miners@ == a.miners@
        &&& b.miner_identities@ == a.miner_identities@
        &&& b.validator_identities@ == a.validator_identities@
        &&& b.active_miners@ == a.active_miners@
        &&& b.pending_miner_requests@ == a.pending_miner_requests@
        &&& b.pending_validator_requests@ == a.pending_validator_requests@
        &&& b.proof_records@ == a.proof_records@
        &&& b.totals == a.totals
        &&& b.health == a.health
        &&& b.requests@ == a.requests@
        &&& b.status_counts == a.status_counts
        &&& b.next_request_id == a.next_request_id
        &&& b.subnet_count == a.subnet_count
        &&& b.miner_count == a.miner_count
    }

    /// Why creating a subnet fails: its proof system must be supported, and neither the burned
    /// total nor the subnet count may overflow.
    pub open spec fn create_subnet_error(a: ChainRegistry, proof_system: ProofSystem, burn: Balance) -> Option<
        ChainRuleError,
    > {
        if !supported_proof_system(proof_system) {
            Some(ChainRuleError::UnsupportedProofSystem)
        } else if a.total_burned + burn > u128::MAX || a.subnet_count == u16::MAX {
            Some(ChainRuleError::ArithmeticOverflow)
        } else {
            None
        }
    }

    /// Creates an active subnet numbered by the subnet count, recording `burn` as burned (the
    /// caller burns it from the owner's free balance); the owner and the economic policy are
    /// stored only as the commitments handed in.
    pub fn create_subnet(
        &mut self,
        domain: SubnetDomain,
        proof_system: ProofSystem,
        owner_commitment: Commitment,
        policy_commitment: Commitment,
        burn: Balance,
    ) -> (r: Result<SubnetId, ChainRuleError>)
        requires
            old(self).wf(),
        ensures
            final(self).wf(),
            match Self::create_subnet_error(*old(self), proof_system, burn) {
                Some(e) => r == Err::<SubnetId, ChainRuleError>(e) && *final(self) == *old(self),
                None => {
                    &&& r == Ok::<SubnetId, ChainRuleError>(old(self).subnet_count)
                    &&& final(self).subnets@ == old(self).subnets@.insert(
                        old(self).subnet_count,
                        ChainSubnet {
                            id: old(self).subnet_count,
                            owner_commitment,
                            domain,
                            proof_system,
                            policy_commitment,
                            active: true,
                        },
                    )
                    &&& final(self).subnet_count == old(self).subnet_count + 1
                    &&& final(self).total_burned == old(self).total_burned + burn
                    &&& Self::same_but_subnets(*old(self), *final(self))
                },
            },
    {
        if !is_supported_proof_system(proof_system) {
            return Err(ChainRuleError::UnsupportedProofSystem);
        }
        if self.total_burned > u128::MAX - burn || self.subnet_count == u16::MAX {
            return Err(ChainRuleError::ArithmeticOverflow);
        }
        let id = self.subnet_count;
        self.subnets.insert(
            id,
            ChainSubnet { id, owner_commitment, domain, proof_system, policy_commitment, active: true },
        );
        self.subnet_count = id + 1;
        self.total_burned = self.total_burned + burn;
        Ok(id)
    }

    /// Why registering a miner fails: its model commitment must be set, its proof system
    /// supported and that of a registered subnet, and neither the burned total nor the miner
    /// count may overflow.
    pub open spec fn register_miner_error(
        a: ChainRegistry,
        subnet_id: SubnetId,
        model_commitment: Commitment,
        proof_system: ProofSystem,
        burn: Balance,
    ) -> Option<ChainRuleError> {
        if is_zero_commitment(model_commitment) {
            Some(ChainRuleError::MissingCommitment)
        } else if !supported_proof_system(proof_system) {
            Some(ChainRuleError::UnsupportedProofSystem)
        } else if !a.subnets@.contains_key(subnet_id) {
            Some(ChainRuleError::UnknownSubnet)
        } else if a.subnets@[subnet_id].proof_system != proof_system {
            Some(ChainRuleError::ProofSystemMismatch)
        } else if a.total_burned + burn > u128::MAX || a.miner_count == u64::MAX {
            Some(ChainRuleError::ArithmeticOverflow)
        } else {
            None
        }
    }

    /// Registers a pending miner numbered by the miner count, recording `burn` as burned (the
    /// caller burns it from the operator's free balance); the operator and the bond are stored
    /// only as the commitments handed in.
    pub fn register_miner(
        &mut self,
        subnet_id: SubnetId,
        model_commitment: Commitment,
        proof_system: ProofSystem,
        operator_commitment: Commitment,
        bond_commitment: Commitment,
        burn: Balance,
    ) -> (r: Result<MinerId, ChainRuleError>)
        requires
            old(self).wf(),
        ensures
            final(self).wf(),
            match Self::register_miner_error(*old(self), subnet_id, model_commitment, proof_system, burn) {
                Some(e) => r == Err::<MinerId, ChainRuleError>(e) && *final(self) == *old(self),
                None => {
                    &&& r == Ok::<MinerId, ChainRuleError>(old(self).miner_count)
                    &&& final(self).miners@ == old(self).miners@.insert(
                        old(self).miner_count,
                        ChainMiner {
                            id: old(self).miner_count,
                            operator_commitment,
                            subnet_id,
                            model_commitment,
                            proof_system,
                            bond_commitment,
                            status: RegistryStatus::Pending,
                        },
                    )
                    &&& final(self).miner_count == old(self).miner_count + 1
                    &&& final(self).total_burned == old(self).total_burned + burn
                    &&& final(self).miner_bonds@ == old(self).miner_bonds@
                    &&& final(self).active_miners@ == old(self).active_miners@
                    &&& Self::same_but_miners(*old(self), *final(self))
                },
            },
    {
        if commitment_is_zero(&model_commitment) {
            return Err(ChainRuleError::MissingCommitment);
        }
        if !is_supported_proof_system(proof_system) {
            return Err(ChainRuleError::UnsupportedProofSystem);
        }
        let subnet = match self.subnets.get(&subnet_id) {
            Some(s) => *s,
            None => return Err(ChainRuleError::UnknownSubnet),
        };
        if subnet.proof_system != proof_system {
            return Err(ChainRuleError::ProofSystemMismatch);
        }
        if self.total_burned > u128::MAX - burn || self.miner_count == u64::MAX {
            return Err(ChainRuleError::ArithmeticOverflow);
        }
        let id = self.miner_count;
        self.miners.insert(
            id,
            ChainMiner {
                id,
                operator_commitment,
                subnet_id,
                model_commitment,
                proof_system,
                bond_commitment,
                status: RegistryStatus::Pending,
            },
        );
        self.miner_count = id + 1;
        self.total_burned = self.total_burned + burn;
        Ok(id)
    }
}

impl ChainRegistry {
    /// Why activating a miner with `bond` fails: the miner must be registered, operated by
    /// `operator` and pending on a registered subnet, the bond must lie within
    /// `[min_bond, max_bond]`, its identity must be bound to its current challenge, and its
    /// subnet's routing index must have room.
    pub open spec fn activate_miner_error(
        a: ChainRegistry,
        miner_id: MinerId,
        operator: AccountCommitments,
        bond: Balance,
        min_bond: Balance,
        max_bond: Balance,
        identity: IdentityBinding,
        capacity: u32,
    ) -> Option<ChainRuleError> {
        if !a.miners@.contains_key(miner_id) {
            Some(ChainRuleError::UnknownMiner)
        } else {
            let m = a.miners@[miner_id];
            if !account_matches(m.operator_commitment, operator) {
                Some(ChainRuleError::NotOperator)
            } else if m.status != RegistryStatus::Pending {
                Some(ChainRuleError::InvalidMinerStatus)
            } else if !a.subnets@.contains_key(m.subnet_id) {
                Some(ChainRuleError::UnknownSubnet)
            } else if bond < min_bond || bond > max_bond {
                Some(ChainRuleError::InvalidBond)
            } else if identity_binding_error(lookup(a.miner_identities@, miner_id), identity) is Some {
                identity_binding_error(lookup(a.miner_identities@, miner_id), identity)
            } else {
                index_insert_error(
                    a.active_miners@,
                    m.subnet_id,
                    miner_id,
                    capacity,
                    ChainRuleError::TooManyActiveMiners,
                )
            }
        }
    }

    /// Activates a pending miner with `bond` locked (the caller holds it on the operator's
    /// balance): the bond is recorded, the miner joins its subnet's routing index, and its
    /// bond commitment becomes `active_bond_commitment`.
    pub fn activate_miner(
        &mut self,
        miner_id: MinerId,
        operator: &AccountCommitments,
        bond: Balance,
        min_bond: Balance,
        max_bond: Balance,
        identity: &IdentityBinding,
        capacity: u32,
        active_bond_commitment: Commitment,
    ) -> (r: Result<(), ChainRuleError>)
        requires
            old(self).wf(),
        ensures
            final(self).wf(),
            match Self::activate_miner_error(*old(self), miner_id, *operator, bond, min_bond, max_bond, *identity, capacity) {
                Some(e) => r == Err::<(), ChainRuleError>(e) && *final(self) == *old(self),
                None => {
                    let m = old(self).miners@[miner_id];
                    &&& r == Ok::<(), ChainRuleError>(())
                    &&& final(self).miners@ == old(self).miners@.insert(
                        miner_id,
                        ChainMiner {
                            status: RegistryStatus::Active,
                            bond_commitment: active_bond_commitment,
                            ..m
                        },
                    )
                    &&& final(self).miner_bonds@ == old(self).miner_bonds@.insert(miner_id, bond)
                    &&& index_inserted(old(self).active_miners@, final(self).active_miners@, m.subnet_id, miner_id)
                    &&& final(self).total_burned == old(self).total_burned
                    &&& final(self).miner_count == old(self).miner_count
                    &&& Self::same_but_miners(*old(self), *final(self))
                },
            },
    {
        let m = match self.miners.get(&miner_id) {
            Some(m) => *m,
            None => return Err(ChainRuleError::UnknownMiner),
        };
        if !crate::settlement::check_account(&m.operator_commitment, operator) {
            return Err(ChainRuleError::NotOperator);
        }
        if m.status != RegistryStatus::Pending {
            return Err(ChainRuleError::InvalidMinerStatus);
        }
        if !self.subnets.contains_key(&m.subnet_id) {
            return Err(ChainRuleError::UnknownSubnet);
        }
        if bond < min_bond || bond > max_bond {
            return Err(ChainRuleError::InvalidBond);
        }
        match check_identity_binding(&self.miner_identities, miner_id, identity) {
            Some(e) => return Err(e),
            None => {},
        }
        let (listed, indexed) = stored_index(&self.active_miners, m.subnet_id, miner_id);
        if !listed && indexed >= capacity as usize {
            return Err(ChainRuleError::TooManyActiveMiners);
        }
        match index_insert(
            &mut self.active_miners,
            m.subnet_id,
            miner_id,
            capacity,
            ChainRuleError::TooManyActiveMiners,
        ) {
            Ok(()) => {},
            Err(e) => return Err(e),
        }
        self.miner_bonds.insert(miner_id, bond);
        self.miners.insert(
            miner_id,
            ChainMiner { status: RegistryStatus::Active, bond_commitment: active_bond_commitment, ..m },
        );
        Ok(())
    }

    /// Why registering a validator with `stake` fails: the subnet must be registered, the stake
    /// at least `min_stake`, the subnet's validator routing index not full, and the validator
    /// count must not overflow.
    pub open spec fn register_validator_error(
        a: ChainRegistry,
        subnet_id: SubnetId,
        stake: Balance,
        min_stake: Balance,
        capacity: u32,
    ) -> Option<ChainRuleError> {
        if !a.subnets@.contains_key(subnet_id) {
            Some(ChainRuleError::UnknownSubnet)
        } else if stake < min_stake {
            Some(ChainRuleError::InvalidStake)
        } else if index_of(a.active_validators@, subnet_id).len() >= capacity {
            Some(ChainRuleError::TooManyActiveValidators)
        } else if a.validator_count == u64::MAX {
            Some(ChainRuleError::ArithmeticOverflow)
        } else {
            None
        }
    }

    /// Registers a pending validator numbered by the validator count with `stake` locked (the
    /// caller holds it on the operator's balance); the operator and the stake are stored only
    /// as the commitments handed in.
    pub fn register_validator(
        &mut self,
        subnet_id: SubnetId,
        stake: Balance,
        min_stake: Balance,
        capacity: u32,
        operator_commitment: Commitment,
        stake_commitment: Commitment,
    ) -> (r: Result<ValidatorId, ChainRuleError>)
        requires
            old(self).wf(),
        ensures
            final(self).wf(),
            match Self::register_validator_error(*old(self), subnet_id, stake, min_stake, capacity) {
                Some(e) => r == Err::<ValidatorId, ChainRuleError>(e) && *final(self) == *old(self),
                None => {
                    &&& r == Ok::<ValidatorId, ChainRuleError>(old(self).validator_count)
                    &&& final(self).validators@ == old(self).validators@.insert(
                        old(self).validator_count,
                        ChainValidator {
                            id: old(self).validator_count,
                            operator_commitment,
                            subnet_id,
                            stake_commitment,
                            status: RegistryStatus::Pending,
                        },
                    )
                    &&& final(self).validator_stakes@ == old(self).validator_stakes@.insert(
                        old(self).validator_count,
                        stake,
                    )
                    &&& final(self).validator_count == old(self).validator_count + 1
                    &&& final(self).active_validators@ == old(self).active_validators@
                    &&& Self::same_but_validators(*old(self), *final(self))
                },
            },
    {
        if !self.subnets.contains_key(&subnet_id) {
            return Err(ChainRuleError::UnknownSubnet);
        }
        if stake < min_stake {
            return Err(ChainRuleError::InvalidStake);
        }
        let indexed: usize = match self.active_validators.get(&subnet_id) {
            Some(ids) => ids.len(),
            None => 0,
        };
        if indexed >= capacity as usize {
            return Err(ChainRuleError::TooManyActiveValidators);
        }
        if self.validator_count == u64::MAX {
            return Err(ChainRuleError::ArithmeticOverflow);
        }
        let id = self.validator_count;
        self.validators.insert(
            id,
            ChainValidator {
                id,
                operator_commitment,
                subnet_id,
                stake_commitment,
                status: RegistryStatus::Pending,
            },
        );
        self.validator_stakes.insert(id, stake);
        self.validator_count = id + 1;
        Ok(id)
    }
}

impl ChainRegistry {
    /// Why starting a miner's exit at block `now` fails: its exit block must not overflow, and
    /// the miner must be registered, operated by `operator`, active or slashed, and free of
    /// pending assignments.
    pub open spec fn deactivate_miner_error(
        a: ChainRegistry,
        miner_id: MinerId,
        operator: AccountCommitments,
        now: BlockNumber,
        cooldown_blocks: BlockNumber,
    ) -> Option<ChainRuleError> {
        if now + cooldown_blocks > u64::MAX {
            Some(ChainRuleError::ArithmeticOverflow)
        } else if !a.miners@.contains_key(miner_id) {
            Some(ChainRuleError::UnknownMiner)
        } else if !account_matches(a.miners@[miner_id].operator_commitment, operator) {
            Some(ChainRuleError::NotOperator)
        } else if a.miners@[miner_id].status != RegistryStatus::Active && a.miners@[miner_id].status
            != RegistryStatus::Slashed {
            Some(ChainRuleError::InvalidMinerStatus)
        } else if pending_of(a.pending_miner_requests@, miner_id) != 0 {
            Some(ChainRuleError::PendingAssignedRequests)
        } else {
            None
        }
    }

    /// Starts a miner's exit: it leaves its subnet's routing index and exits once
    /// `cooldown_blocks` have passed from `now`, its bond commitment becoming
    /// `exiting_bond_commitment`.
    pub fn deactivate_miner(
        &mut self,
        miner_id: MinerId,
        operator: &AccountCommitments,
        now: BlockNumber,
        cooldown_blocks: BlockNumber,
        exiting_bond_commitment: Commitment,
    ) -> (r: Result<(), ChainRuleError>)
        requires
            old(self).wf(),
        ensures
            final(self).wf(),
            match Self::deactivate_miner_error(*old(self), miner_id, *operator, now, cooldown_blocks) {
                Some(e) => r == Err::<(), ChainRuleError>(e) && *final(self) == *old(self),
                None => {
                    let m = old(self).miners@[miner_id];
                    &&& r == Ok::<(), ChainRuleError>(())
                    &&& final(self).miners@ == old(self).miners@.insert(
                        miner_id,
                        ChainMiner {
                            status: RegistryStatus::Exiting {
                                exit_available_at: (now + cooldown_blocks) as BlockNumber,
                            },
                            bond_commitment: exiting_bond_commitment,
                            ..m
                        },
                    )
                    &&& index_removed(old(self).active_miners@, final(self).active_miners@, m.subnet_id, miner_id)
                    &&& final(self).miner_bonds@ == old(self).miner_bonds@
                    &&& final(self).total_burned == old(self).total_burned
                    &&& final(self).miner_count == old(self).miner_count
                    &&& Self::same_but_miners(*old(self), *final(self))
                },
            },
    {
        let exit_available_at = match now.checked_add(cooldown_blocks) {
            Some(t) => t,
            None => return Err(ChainRuleError::ArithmeticOverflow),
        };
        let m = match self.miners.get(&miner_id) {
            Some(m) => *m,
            None => return Err(ChainRuleError::UnknownMiner),
        };
        if !crate::settlement::check_account(&m.operator_commitment, operator) {
            return Err(ChainRuleError::NotOperator);
        }
        if m.status != RegistryStatus::Active && m.status != RegistryStatus::Slashed {
            return Err(ChainRuleError::InvalidMinerStatus);
        }
        if self.pending_miner_requests.contains_key(&miner_id) {
            let pending: u32 = *self.pending_miner_requests.get(&miner_id).unwrap();
            if pending != 0 {
                return Err(ChainRuleError::PendingAssignedRequests);
            }
        }
        index_remove(&mut self.active_miners, m.subnet_id, miner_id);
        self.miners.insert(
            miner_id,
            ChainMiner {
                status: RegistryStatus::Exiting { exit_available_at },
                bond_commitment: exiting_bond_commitment,
                ..m
            },
        );
        Ok(())
    }

    /// Why withdrawing a miner's bond at block `now` fails: the miner must be registered,
    /// operated by `operator` and exiting with its cooldown over, and its bond record must
    /// exist.
    pub open spec fn withdraw_miner_bond_error(
        a: ChainRegistry,
        miner_id: MinerId,
        operator: AccountCommitments,
        now: BlockNumber,
    ) -> Option<ChainRuleError> {
        if !a.miners@.contains_key(miner_id) {
            Some(ChainRuleError::UnknownMiner)
        } else if !account_matches(a.miners@[miner_id].operator_commitment, operator) {
            Some(ChainRuleError::NotOperator)
        } else {
            match a.miners@[miner_id].status {
                RegistryStatus::Exiting { exit_available_at } => if now < exit_available_at {
                    Some(ChainRuleError::MinerExitUnavailable)
                } else if !a.miner_bonds@.contains_key(miner_id) {
                    Some(ChainRuleError::MissingCapitalRecord)
                } else {
                    None
                },
                _ => Some(ChainRuleError::InvalidMinerStatus),
            }
        }
    }

    /// Ends an exited miner: its bond record is removed and returned for the caller to release,
    /// and the miner is disabled with bond commitment `disabled_bond_commitment`.
    pub fn withdraw_miner_bond(
        &mut self,
        miner_id: MinerId,
        operator: &AccountCommitments,
        now: BlockNumber,
        disabled_bond_commitment: Commitment,
    ) -> (r: Result<Balance, ChainRuleError>)
        requires
            old(self).wf(),
        ensures
            final(self).wf(),
            match Self::withdraw_miner_bond_error(*old(self), miner_id, *operator, now) {
                Some(e) => r == Err::<Balance, ChainRuleError>(e) && *final(self) == *old(self),
                None => {
                    &&& r == Ok::<Balance, ChainRuleError>(old(self).miner_bonds@[miner_id])
                    &&& final(self).miners@ == old(self).miners@.insert(
                        miner_id,
                        ChainMiner {
                            status: RegistryStatus::Disabled,
                            bond_commitment: disabled_bond_commitment,
                            ..old(self).miners@[miner_id]
                        },
                    )
                    &&& final(self).miner_bonds@ == old(self).miner_bonds@.remove(miner_id)
                    &&& final(self).active_miners@ == old(self).active_miners@
                    &&& final(self).total_burned == old(self).total_burned
                    &&& final(self).miner_count == old(self).miner_count
                    &&& Self::same_but_miners(*old(self), *final(self))
                },
            },
    {
        let m = match self.miners.get(&miner_id) {
            Some(m) => *m,
            None => return Err(ChainRuleError::UnknownMiner),
        };
        if !crate::settlement::check_account(&m.operator_commitment, operator) {
            return Err(ChainRuleError::NotOperator);
        }
        let exit_available_at = match m.status {
            RegistryStatus::Exiting { exit_available_at } => exit_available_at,
            _ => return Err(ChainRuleError::InvalidMinerStatus),
        };
        if now < exit_available_at {
            return Err(ChainRuleError::MinerExitUnavailable);
        }
        let bond: Balance = match self.miner_bonds.get(&miner_id) {
            Some(b) => *b,
            None => return Err(ChainRuleError::MissingCapitalRecord),
        };
        self.miner_bonds.remove(&miner_id);
        self.miners.insert(
            miner_id,
            ChainMiner { status: RegistryStatus::Disabled, bond_commitment: disabled_bond_commitment, ..m },
        );
        Ok(bond)
    }

    /// Why starting a validator's exit at block `now` fails: its exit block must not overflow,
    /// and the validator must be registered, operated by `operator`, pending, active or
    /// slashed, and free of pending assignments.
    pub open spec fn deactivate_validator_error(
        a: ChainRegistry,
        validator_id: ValidatorId,
        operator: AccountCommitments,
        now: BlockNumber,
        cooldown_blocks: BlockNumber,
    ) -> Option<ChainRuleError> {
        if now + cooldown_blocks > u64::MAX {
            Some(ChainRuleError::ArithmeticOverflow)
        } else if !a.validators@.contains_key(validator_id) {
            Some(ChainRuleError::UnknownValidator)
        } else if !account_matches(a.validators@[validator_id].operator_commitment, operator) {
            Some(ChainRuleError::NotOperator)
        } else if a.validators@[validator_id].status != RegistryStatus::Pending
            && a.validators@[validator_id].status != RegistryStatus::Active
            && a.validators@[validator_id].status != RegistryStatus::Slashed {
            Some(ChainRuleError::InvalidValidatorStatus)
        } else if pending_of(a.pending_validator_requests@, validator_id) != 0 {
            Some(ChainRuleError::PendingAssignedRequests)
        } else {
            None
        }
    }

    /// Starts a validator's exit: it leaves its subnet's routing index and exits once
    /// `cooldown_blocks` have passed from `now`, its stake commitment becoming
    /// `exiting_stake_commitment`.
    pub fn deactivate_validator(
        &mut self,
        validator_id: ValidatorId,
        operator: &AccountCommitments,
        now: BlockNumber,
        cooldown_blocks: BlockNumber,
        exiting_stake_commitment: Commitment,
    ) -> (r: Result<(), ChainRuleError>)
        requires
            old(self).wf(),
        ensures
            final(self).wf(),
            match Self::deactivate_validator_error(*old(self), validator_id, *operator, now, cooldown_blocks) {
                Some(e) => r == Err::<(), ChainRuleError>(e) && *final(self) == *old(self),
                None => {
                    let v = old(self).validators@[validator_id];
                    &&& r == Ok::<(), ChainRuleError>(())
                    &&& final(self).validators@ == old(self).validators@.insert(
                        validator_id,
                        ChainValidator {
                            status: RegistryStatus::Exiting {
                                exit_available_at: (now + cooldown_blocks) as BlockNumber,
                            },
                            stake_commitment: exiting_stake_commitment,
                            ..v
                        },
                    )
                    &&& index_removed(
                        old(self).active_validators@,
                        final(self).active_validators@,
                        v.subnet_id,
                        validator_id,
                    )
                    &&& final(self).validator_stakes@ == old(self).validator_stakes@
                    &&& final(self).validator_count == old(self).validator_count
                    &&& Self::same_but_validators(*old(self), *final(self))
                },
            },
    {
        let exit_available_at = match now.checked_add(cooldown_blocks) {
            Some(t) => t,
            None => return Err(ChainRuleError::ArithmeticOverflow),
        };
        let v = match self.validators.get(&validator_id) {
            Some(v) => *v,
            None => return Err(ChainRuleError::UnknownValidator),
        };
        if !crate::settlement::check_account(&v.operator_commitment, operator) {
            return Err(ChainRuleError::NotOperator);
        }
        if v.status != RegistryStatus::Pending && v.status != RegistryStatus::Active && v.status
            != RegistryStatus::Slashed {
            return Err(ChainRuleError::InvalidValidatorStatus);
        }
        if self.pending_validator_requests.contains_key(&validator_id) {
            let pending: u32 = *self.pending_validator_requests.get(&validator_id).unwrap();
            if pending != 0 {
                return Err(ChainRuleError::PendingAssignedRequests);
            }
        }
        index_remove(&mut self.active_validators, v.subnet_id, validator_id);
        self.validators.insert(
            validator_id,
            ChainValidator {
                status: RegistryStatus::Exiting { exit_available_at },
                stake_commitment: exiting_stake_commitment,
                ..v
            },
        );
        Ok(())
    }

    /// Why withdrawing a validator's stake at block `now` fails: the validator must be
    /// registered, operated by `operator` and exiting with its cooldown over, and its stake
    /// record must exist.
    pub open spec fn withdraw_validator_stake_error(
        a: ChainRegistry,
        validator_id: ValidatorId,
        operator: AccountCommitments,
        now: BlockNumber,
    ) -> Option<ChainRuleError> {
        if !a.validators@.contains_key(validator_id) {
            Some(ChainRuleError::UnknownValidator)
        } else if !account_matches(a.validators@[validator_id].operator_commitment, operator) {
            Some(ChainRuleError::NotOperator)
        } else {
            match a.validators@[validator_id].status {
                RegistryStatus::Exiting { exit_available_at } => if now < exit_available_at {
                    Some(ChainRuleError::ValidatorExitUnavailable)
                } else if !a.validator_stakes@.contains_key(validator_id) {
                    Some(ChainRuleError::MissingCapitalRecord)
                } else {
                    None
                },
                _ => Some(ChainRuleError::InvalidValidatorStatus),
            }
        }
    }

    /// Ends an exited validator: its stake record is removed and returned for the caller to
    /// release, and the validator is disabled with stake commitment
    /// `disabled_stake_commitment`.
    pub fn withdraw_validator_stake(
        &mut self,
        validator_id: ValidatorId,
        operator: &AccountCommitments,
        now: BlockNumber,
        disabled_stake_commitment: Commitment,
    ) -> (r: Result<Balance, ChainRuleError>)
        requires
            old(self).wf(),
        ensures
            final(self).wf(),
            match Self::withdraw_validator_stake_error(*old(self), validator_id, *operator, now) {
                Some(e) => r == Err::<Balance, ChainRuleError>(e) && *final(self) == *old(self),
                None => {
                    &&& r == Ok::<Balance, ChainRuleError>(old(self).validator_stakes@[validator_id])
                    &&& final(self).validators@ == old(self).validators@.insert(
                        validator_id,
                        ChainValidator {
                            status: RegistryStatus::Disabled,
                            stake_commitment: disabled_stake_commitment,
                            ..old(self).validators@[validator_id]
                        },
                    )
                    &&& final(self).validator_stakes@ == old(self).validator_stakes@.remove(validator_id)
                    &&& final(self).active_validators@ == old(self).active_validators@
                    &&& final(self).validator_count == old(self).validator_count
                    &&& Self::same_but_validators(*old(self), *final(self))
                },
            },
    {
        let v = match self.validators.get(&validator_id) {
            Some(v) => *v,
            None => return Err(ChainRuleError::UnknownValidator),
        };
        if !crate::settlement::check_account(&v.operator_commitment, operator) {
            return Err(ChainRuleError::NotOperator);
        }
        let exit_available_at = match v.status {
            RegistryStatus::Exiting { exit_available_at } => exit_available_at,
            _ => return Err(ChainRuleError::InvalidValidatorStatus),
        };
        if now < exit_available_at {
            return Err(ChainRuleError::ValidatorExitUnavailable);
        }
        let stake: Balance = match self.validator_stakes.get(&validator_id) {
            Some(b) => *b,
            None => return Err(ChainRuleError::MissingCapitalRecord),
        };
        self.validator_stakes.remove(&validator_id);
        self.validators.insert(
            validator_id,
            ChainValidator {
                status: RegistryStatus::Disabled,
                stake_commitment: disabled_stake_commitment,
                ..v
            },
        );
        Ok(stake)
    }
}

impl ChainRegistry {
    /// Registration and exit go ahead only on their conditions: a subnet only for a RISC Zero
    /// or STARK proof system; a miner only with a model commitment on a registered subnet of
    /// its proof system; activation only of a registered, pending miner of the named operator
    /// on a registered subnet, with a bond within the bounds and its identity bound to its
    /// current challenge; a validator only on a registered subnet with at least the minimum
    /// stake and room in the subnet's index; an exit only for the named operator's participant
    /// with no pending assignment, and a withdrawal only once the participant's exit block has
    /// been reached.
    pub proof fn lemma_lifecycle_requirements(
        a: ChainRegistry,
        id: u64,
        subnet_id: SubnetId,
        operator: AccountCommitments,
        amount: Balance,
        min_amount: Balance,
        max_amount: Balance,
        model_commitment: Commitment,
        proof_system: ProofSystem,
        identity: IdentityBinding,
        capacity: u32,
        now: BlockNumber,
        cooldown_blocks: BlockNumber,
    )
        ensures
            Self::create_subnet_error(a, proof_system, amount) is None ==> (proof_system
                == ProofSystem::RiscZeroStark || proof_system == ProofSystem::Stark),
            Self::register_miner_error(a, subnet_id, model_commitment, proof_system, amount) is None
                ==> {
                &&& !is_zero_commitment(model_commitment)
                &&& (proof_system == ProofSystem::RiscZeroStark || proof_system == ProofSystem::Stark)
                &&& a.subnets@.contains_key(subnet_id)
                &&& a.subnets@[subnet_id].proof_system == proof_system
            },
            Self::activate_miner_error(a, id, operator, amount, min_amount, max_amount, identity, capacity)
                is None ==> {
                &&& a.miners@.contains_key(id)
                &&& (a.miners@[id].operator_commitment == operator.role
                    || a.miners@[id].operator_commitment == operator.account)
                &&& a.miners@[id].status == RegistryStatus::Pending
                &&& a.subnets@.contains_key(a.miners@[id].subnet_id)
                &&& min_amount <= amount <= max_amount
                &&& a.miner_identities@.contains_key(id)
                &&& a.miner_identities@[id].challenge == identity.challenge
                &&& (index_of(a.active_miners@, a.miners@[id].subnet_id).contains(id) || index_of(
                    a.active_miners@,
                    a.miners@[id].subnet_id,
                ).len() < capacity)
            },
            Self::register_validator_error(a, subnet_id, amount, min_amount, capacity) is None ==> {
                &&& a.subnets@.contains_key(subnet_id)
                &&& amount >= min_amount
                &&& index_of(a.active_validators@, subnet_id).len() < capacity
            },
            Self::deactivate_miner_error(a, id, operator, now, cooldown_blocks) is None ==> {
                &&& a.miners@.contains_key(id)
                &&& (a.miners@[id].operator_commitment == operator.role
                    || a.miners@[id].operator_commitment == operator.account)
                &&& (a.miners@[id].status == RegistryStatus::Active || a.miners@[id].status
                    == RegistryStatus::Slashed)
                &&& pending_of(a.pending_miner_requests@, id) == 0
                &&& now + cooldown_blocks <= u64::MAX
            },
            Self::withdraw_miner_bond_error(a, id, operator, now) is None ==> {
                &&& a.miners@.contains_key(id)
                &&& (a.miners@[id].operator_commitment == operator.role
                    || a.miners@[id].operator_commitment == operator.account)
                &&& a.miners@[id].status matches RegistryStatus::Exiting { exit_available_at }
                    && exit_available_at <= now
                &&& a.miner_bonds@.contains_key(id)
            },
            Self::deactivate_validator_error(a, id, operator, now, cooldown_blocks) is None ==> {
                &&& a.validators@.contains_key(id)
                &&& (a.validators@[id].operator_commitment == operator.role
                    || a.validators@[id].operator_commitment == operator.account)
                &&& (a.validators@[id].status == RegistryStatus::Pending || a.validators@[id].status
                    == RegistryStatus::Active || a.validators@[id].status == RegistryStatus::Slashed)
                &&& pending_of(a.pending_validator_requests@, id) == 0
            },
            Self::withdraw_validator_stake_error(a, id, operator, now) is None ==> {
                &&& a.validators@.contains_key(id)
                &&& (a.validators@[id].operator_commitment == operator.role
                    || a.validators@[id].operator_commitment == operator.account)
                &&& a.validators@[id].status matches RegistryStatus::Exiting { exit_available_at }
                    && exit_available_at <= now
                &&& a.validator_stakes@.contains_key(id)
            },
    {
    }
}

} // verus!
