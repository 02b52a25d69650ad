//! Qubitum protocol primitives: the vocabulary, policies and settlement arithmetic of the
//! protocol, its post-quantum signature policy, proof verifiers and the protocol state machine.
pub mod authors;
pub mod chain;
pub mod consistency;
pub mod reindex;
pub mod post_quantum;
pub mod proof_verifier;
pub mod lifecycle;
pub mod registry;
pub mod route_view;
pub mod routing;
pub mod rules;
pub mod settlement;
pub mod shielding;
pub mod state;
pub mod weights;
pub mod wire;

pub use post_quantum::{SignatureAlgorithm, SignatureBundle, SignatureCommitment, SignaturePolicy};
pub use proof_verifier::{FailClosedProofVerifier, MockVerifier, ProofProcessing, ProofVerifier, ShapeVerifier};
pub use state::{AccountLedger, ProtocolState};
pub use wire::build_wire_ciphertext;
use vstd::prelude::*;

verus! {

/// Smallest accounting unit for QBT.
pub type Balance = u128;

/// Chain block number.
pub type BlockNumber = u64;

/// Subnet identifier.
pub type SubnetId = u16;

/// Miner identifier inside a subnet.
pub type MinerId = u64;

/// Validator identifier inside a subnet.
pub type ValidatorId = u64;

/// Inference request identifier.
pub type RequestId = u64;

/// Account identifier placeholder used by runtime integrations.
pub type AccountId = [u8; 32];

/// Commitment/hash placeholder used for private data.
pub type Commitment = [u8; 32];

/// Basis points denominator.
pub const BPS_DENOMINATOR: u16 = 10_000;

/// Number of plancks in one QBT.
pub const PLANCKS_PER_QBT: Balance = 1_000_000_000;

/// Initial QBT supply, expressed in whole QBT.
pub const INITIAL_SUPPLY_QBT: Balance = 21_000_000;

/// Initial QBT supply, expressed in plancks.
pub const INITIAL_SUPPLY: Balance = 21_000_000_000_000_000;

/// Four-year halving interval at a nominal twelve-second block time.
pub const HALVING_INTERVAL_BLOCKS: BlockNumber = 10_512_000;

/// Miner emission share.
pub const MINER_EMISSION_BPS: u16 = 5_000;

/// Validator emission share.
pub const VALIDATOR_REWARD_BPS: u16 = 3_000;

/// Protocol treasury emission share.
pub const TREASURY_REWARD_BPS: u16 = 2_000;

/// Required burn for miner registration.
pub const MINER_REGISTRATION_BURN: Balance = 10_000_000_000;

/// Minimum miner bond.
pub const MIN_MINER_BOND: Balance = 100_000_000_000;

/// Maximum miner bond.
pub const MAX_MINER_BOND: Balance = 10_000_000_000_000;

/// Miner exit cooldown at a nominal twelve-second block time.
pub const BOND_EXIT_COOLDOWN_BLOCKS: BlockNumber = 50_400;

/// Minimum invalid-proof slash.
pub const MIN_INVALID_PROOF_SLASH_BPS: u16 = 1_000;

/// Maximum invalid-proof slash.
pub const MAX_INVALID_PROOF_SLASH_BPS: u16 = 10_000;

/// Target proof size lower bound.
pub const TARGET_PROOF_SIZE_MIN_BYTES: u32 = 51_200;

/// Target proof size upper bound.
pub const TARGET_PROOF_SIZE_MAX_BYTES: u32 = 204_800;

/// Target validator verification latency.
pub const TARGET_VERIFICATION_MS: u32 = 100;

/// Protocol-level error shared by runtime and off-chain clients.
#[derive(Clone, Copy, Debug, PartialEq, Eq, Structural)]
pub enum ProtocolError {
    ArithmeticOverflow,
    ClassicalSignatureDisallowed,
    CooldownNotComplete,
    DuplicateSubnet,
    InsufficientBalance,
    InvalidBond,
    InvalidCreationBurn,
    InvalidProofSize,
    InvalidRewardSplit,
    InvalidSlashPercent,
    InvalidStake,
    LatencyExceeded,
    MissingClassicalSignature,
    MissingCommitment,
    MissingPostQuantumSignature,
    NotActive,
    ProofSystemMismatch,
    UnknownMiner,
    UnknownSubnet,
    UnknownValidator,
    UnsupportedSignatureAlgorithm,
    VerifierError,
}

/// Execution proof system used by a subnet or proof submission.
#[derive(Clone, Copy, Debug, PartialEq, Eq, Structural)]
pub enum ProofSystem {
    Mock,
    RiscZeroStark,
    Stark,
    External(u16),
}

/// Planned account-signature mode for post-quantum migration.
#[derive(Clone, Copy, Debug, PartialEq, Eq, Structural)]
pub enum SignatureMode {
    ClassicalEcdsa,
    HybridDilithium,
    FullPostQuantum,
}

/// Specialized AI domain for a subnet.
#[derive(Clone, Copy, Debug, PartialEq, Eq)]
pub enum SubnetDomain {
    General,
    Vision,
    Code,
    Biology,
    Custom(Commitment),
}

/// Entity lifecycle in Qubitum registries.
#[derive(Clone, Copy, Debug, PartialEq, Eq, Structural)]
pub enum RegistryStatus {
    Pending,
    Active,
    Exiting { exit_available_at: BlockNumber },
    Slashed,
    Disabled,
}

/// Visibility contract for data handled by a proof.
#[derive(Clone, Copy, Debug, PartialEq, Eq, Structural)]
pub enum Visibility {
    Private,
    Public,
    Optional,
}

/// Expected visibility of a protocol element.
#[derive(Clone, Copy, Debug, PartialEq, Eq, Structural)]
pub struct PrivacyElement {
    pub element: PrivacyElementKind,
    pub visibility: Visibility,
}

/// Data element covered by Qubitum privacy guarantees.
#[derive(Clone, Copy, Debug, PartialEq, Eq, Structural)]
pub enum PrivacyElementKind {
    ModelWeights,
    InferenceInput,
    InferenceOutput,
    MinerIdentity,
}

/// Whether every byte of a commitment is zero, i.e. no commitment was supplied.
pub open spec fn is_zero_commitment(c: Commitment) -> bool {
    forall|i: int| 0 <= i < 32 ==> #[trigger] c[i] == 0u8
}

/// Tests whether a commitment is all zero bytes.
pub fn commitment_is_zero(c: &Commitment) -> (r: bool)
    ensures
        r == is_zero_commitment(*c),
{
    let mut i: usize = 0;
    while i < 32
        invariant
            0 <= i <= 32,
            forall|j: int| 0 <= j < i ==> #[trigger] c[j] == 0u8,
        decreases 32 - i,
    {
        if c[i] != 0 {
            return false;
        }
        i = i + 1;
    }
    true
}

/// Tests two commitments for equality byte by byte.
pub fn commitments_equal(a: &Commitment, b: &Commitment) -> (r: bool)
    ensures
        r == (*a == *b),
{
    let mut i: usize = 0;
    while i < 32
        invariant
            0 <= i <= 32,
            forall|j: int| 0 <= j < i ==> #[trigger] a[j] == b[j],
        decreases 32 - i,
    {
        if a[i] != b[i] {
            return false;
        }
        i = i + 1;
    }
    proof {
        broadcast use vstd::array::group_array_axioms;
        assert(*a =~= *b);
    }
    true
}

/// The basis-point share of an amount, rounded down.
pub open spec fn pro_rata_value(amount: int, bps: int) -> int {
    amount * bps / (BPS_DENOMINATOR as int)
}

/// Whether the basis-point share of `amount` overflows the balance type on the way.
pub open spec fn pro_rata_overflows(amount: Balance, bps: u16) -> bool {
    amount * bps > u128::MAX
}

/// Basis-point share of `amount`; fails when `amount * bps` does not fit a balance.
pub fn pro_rata(amount: Balance, bps: u16) -> (r: Result<Balance, ProtocolError>)
    ensures
        pro_rata_overflows(amount, bps) ==> r == Err::<Balance, ProtocolError>(
            ProtocolError::ArithmeticOverflow,
        ),
        !pro_rata_overflows(amount, bps) ==> (r matches Ok(v) && v == pro_rata_value(
            amount as int,
            bps as int,
        )),
{
    match amount.checked_mul(bps as u128) {
        Some(value) => Ok(value / (BPS_DENOMINATOR as u128)),
        None => Err(ProtocolError::ArithmeticOverflow),
    }
}

/// A basis-point share never exceeds the whole when the share is at most 100%.
pub proof fn lemma_pro_rata_bounded(amount: int, bps: int)
    requires
        0 <= amount,
        0 <= bps <= BPS_DENOMINATOR,
    ensures
        0 <= pro_rata_value(amount, bps) <= amount,
{
    assert(0 <= amount * bps <= amount * 10000) by (nonlinear_arith)
        requires
            0 <= amount,
            0 <= bps <= 10000,
    ;
    assert(0 <= (amount * bps) / 10000 <= amount) by (nonlinear_arith)
        requires
            0 <= amount * bps <= amount * 10000,
    ;
}

/// Two basis-point shares whose rates sum to at most 100% together stay within the whole.
pub proof fn lemma_pro_rata_pair_bounded(amount: int, a: int, b: int)
    requires
        0 <= amount,
        0 <= a,
        0 <= b,
        a + b <= BPS_DENOMINATOR,
    ensures
        0 <= pro_rata_value(amount, a),
        0 <= pro_rata_value(amount, b),
        pro_rata_value(amount, a) + pro_rata_value(amount, b) <= amount,
{
    let x = amount * a;
    let y = amount * b;
    assert(0 <= x && 0 <= y && x + y <= amount * 10000) by (nonlinear_arith)
        requires
            0 <= amount,
            0 <= a,
            0 <= b,
            a + b <= 10000,
            x == amount * a,
            y == amount * b,
    ;
    assert(0 <= x / 10000 && 0 <= y / 10000 && x / 10000 + y / 10000 <= amount)
        by (nonlinear_arith)
        requires
            0 <= x,
            0 <= y,
            x + y <= amount * 10000,
    ;
}

/// Protocol emission split.
#[derive(Clone, Copy, Debug, PartialEq, Eq, Structural)]
pub struct RewardSplit {
    pub miner_bps: u16,
    pub validator_bps: u16,
    pub treasury_bps: u16,
}

/// Amounts emitted to each protocol recipient class.
#[derive(Clone, Copy, Debug, PartialEq, Eq, Structural)]
pub struct EmissionAllocation {
    pub miner: Balance,
    pub validator: Balance,
    pub treasury: Balance,
}

impl RewardSplit {
    /// The split encoded by the protocol constants.
    pub open spec fn spec_qubitum() -> Self {
        RewardSplit {
            miner_bps: MINER_EMISSION_BPS,
            validator_bps: VALIDATOR_REWARD_BPS,
            treasury_bps: TREASURY_REWARD_BPS,
        }
    }

    /// The error `validate` reports for this split, if any.
    pub open spec fn split_error(self) -> Option<ProtocolError> {
        if self.miner_bps + self.validator_bps + self.treasury_bps > u16::MAX {
            Some(ProtocolError::ArithmeticOverflow)
        } else if self.miner_bps + self.validator_bps + self.treasury_bps != BPS_DENOMINATOR {
            Some(ProtocolError::InvalidRewardSplit)
        } else {
            None
        }
    }

    /// The outcome of `allocate` for this split and amount.
    pub open spec fn spec_allocate(self, amount: Balance) -> Result<
        EmissionAllocation,
        ProtocolError,
    > {
        match self.split_error() {
            Some(e) => Err(e),
            None => if pro_rata_overflows(amount, self.miner_bps) || pro_rata_overflows(
                amount,
                self.validator_bps,
            ) {
                Err(ProtocolError::ArithmeticOverflow)
            } else {
                let miner = pro_rata_value(amount as int, self.miner_bps as int);
                let validator = pro_rata_value(amount as int, self.validator_bps as int);
                Ok(
                    EmissionAllocation {
                        miner: miner as u128,
                        validator: validator as u128,
                        treasury: (amount - miner - validator) as u128,
                    },
                )
            },
        }
    }

    /// Qubitum's 50% / 30% / 20% miner / validator / treasury split.
    pub fn qubitum() -> (r: Self)
        ensures
            r == Self::spec_qubitum(),
    {
        RewardSplit {
            miner_bps: MINER_EMISSION_BPS,
            validator_bps: VALIDATOR_REWARD_BPS,
            treasury_bps: TREASURY_REWARD_BPS,
        }
    }

    /// Accepts the split only when its shares add up to exactly 100%.
    pub fn validate(self) -> (r: Result<Self, ProtocolError>)
        ensures
            r == match self.split_error() {
                Some(e) => Err(e),
                None => Ok(self),
            },
    {
        let sum = match self.miner_bps.checked_add(self.validator_bps) {
            Some(value) => value.checked_add(self.treasury_bps),
            None => None,
        };
        match sum {
            Some(sum) => {
                if sum == BPS_DENOMINATOR {
                    Ok(self)
                } else {
                    Err(ProtocolError::InvalidRewardSplit)
                }
            },
            None => Err(ProtocolError::ArithmeticOverflow),
        }
    }

    /// Splits an emission amount; the rounding remainder goes to the treasury.
    pub fn allocate(self, amount: Balance) -> (r: Result<EmissionAllocation, ProtocolError>)
        ensures
            r == self.spec_allocate(amount),
            r matches Ok(a) ==> a.miner + a.validator + a.treasury == amount,
    {
        match self.validate() {
            Err(e) => {
                return Err(e);
            },
            Ok(_) => {},
        }
        let miner = match pro_rata(amount, self.miner_bps) {
            Ok(v) => v,
            Err(e) => {
                return Err(e);
            },
        };
        let validator = match pro_rata(amount, self.validator_bps) {
            Ok(v) => v,
            Err(e) => {
                return Err(e);
            },
        };
        proof {
            lemma_pro_rata_pair_bounded(
                amount as int,
                self.miner_bps as int,
                self.validator_bps as int,
            );
        }
        let assigned = miner + validator;
        let treasury = amount - assigned;
        Ok(EmissionAllocation { miner, validator, treasury })
    }
}

/// Miner bond and slash policy.
#[derive(Clone, Copy, Debug, PartialEq, Eq, Structural)]
pub struct MinerBondPolicy {
    pub registration_burn: Balance,
    pub min_bond: Balance,
    pub max_bond: Balance,
    pub exit_cooldown_blocks: BlockNumber,
    pub min_invalid_proof_slash_bps: u16,
    pub max_invalid_proof_slash_bps: u16,
}

impl MinerBondPolicy {
    /// The bond policy encoded by the protocol constants.
    pub open spec fn spec_qubitum() -> Self {
        MinerBondPolicy {
            registration_burn: MINER_REGISTRATION_BURN,
            min_bond: MIN_MINER_BOND,
            max_bond: MAX_MINER_BOND,
            exit_cooldown_blocks: BOND_EXIT_COOLDOWN_BLOCKS,
            min_invalid_proof_slash_bps: MIN_INVALID_PROOF_SLASH_BPS,
            max_invalid_proof_slash_bps: MAX_INVALID_PROOF_SLASH_BPS,
        }
    }

    /// Whether a bond lies inside the policy's bounds.
    pub open spec fn bond_in_bounds(self, bond: Balance) -> bool {
        self.min_bond <= bond <= self.max_bond
    }

    /// Whether a slash rate lies inside the policy's bounds.
    pub open spec fn slash_in_bounds(self, slash_bps: u16) -> bool {
        self.min_invalid_proof_slash_bps <= slash_bps <= self.max_invalid_proof_slash_bps
    }

    /// The outcome of `slash_amount`.
    pub open spec fn spec_slash_amount(self, bond: Balance, slash_bps: u16) -> Result<
        Balance,
        ProtocolError,
    > {
        if !self.slash_in_bounds(slash_bps) {
            Err(ProtocolError::InvalidSlashPercent)
        } else if pro_rata_overflows(bond, slash_bps) {
            Err(ProtocolError::ArithmeticOverflow)
        } else {
            Ok(pro_rata_value(bond as int, slash_bps as int) as u128)
        }
    }

    /// The outcome of `exit_available_at`.
    pub open spec fn spec_exit_available_at(self, current_block: BlockNumber) -> Result<
        BlockNumber,
        ProtocolError,
    > {
        if current_block + self.exit_cooldown_blocks > u64::MAX {
            Err(ProtocolError::ArithmeticOverflow)
        } else {
            Ok((current_block + self.exit_cooldown_blocks) as u64)
        }
    }

    /// Qubitum's miner bond policy.
    pub fn qubitum() -> (r: Self)
        ensures
            r == Self::spec_qubitum(),
    {
        MinerBondPolicy {
            registration_burn: MINER_REGISTRATION_BURN,
            min_bond: MIN_MINER_BOND,
            max_bond: MAX_MINER_BOND,
            exit_cooldown_blocks: BOND_EXIT_COOLDOWN_BLOCKS,
            min_invalid_proof_slash_bps: MIN_INVALID_PROOF_SLASH_BPS,
            max_invalid_proof_slash_bps: MAX_INVALID_PROOF_SLASH_BPS,
        }
    }

    /// Accepts a bond inside `[min_bond, max_bond]` and returns it.
    pub fn validate_bond(self, bond: Balance) -> (r: Result<Balance, ProtocolError>)
        ensures
            r == if self.bond_in_bounds(bond) {
                Ok::<Balance, ProtocolError>(bond)
            } else {
                Err(ProtocolError::InvalidBond)
            },
    {
        if bond < self.min_bond || bond > self.max_bond {
            return Err(ProtocolError::InvalidBond);
        }
        Ok(bond)
    }

    /// The first block at which an exit started at `current_block` completes.
    pub fn exit_available_at(self, current_block: BlockNumber) -> (r: Result<
        BlockNumber,
        ProtocolError,
    >)
        ensures
            r == self.spec_exit_available_at(current_block),
    {
        match current_block.checked_add(self.exit_cooldown_blocks) {
            Some(v) => Ok(v),
            None => Err(ProtocolError::ArithmeticOverflow),
        }
    }

    /// A slash never burns more than the bond when the policy's largest rate is at most 100%.
    pub proof fn lemma_slash_within_bond(self, bond: Balance, slash_bps: u16)
        requires
            self.max_invalid_proof_slash_bps <= BPS_DENOMINATOR,
        ensures
            self.spec_slash_amount(bond, slash_bps) matches Ok(amount) ==> amount <= bond,
    {
        if self.slash_in_bounds(slash_bps) {
            lemma_pro_rata_bounded(bond as int, slash_bps as int);
        }
    }

    /// The part of `bond` burned by an invalid-proof slash of `slash_bps`.
    pub fn slash_amount(self, bond: Balance, slash_bps: u16) -> (r: Result<Balance, ProtocolError>)
        ensures
            r == self.spec_slash_amount(bond, slash_bps),
    {
        if slash_bps < self.min_invalid_proof_slash_bps || slash_bps
            > self.max_invalid_proof_slash_bps {
            return Err(ProtocolError::InvalidSlashPercent);
        }
        pro_rata(bond, slash_bps)
    }
}

/// Runtime policy for a Qubitum subnet.
#[derive(Clone, Copy, Debug, PartialEq, Eq, Structural)]
pub struct SubnetPolicy {
    pub creation_burn: Balance,
    pub miner_bond: MinerBondPolicy,
    pub min_validator_stake: Balance,
    pub proof_system: ProofSystem,
    pub min_proof_size_bytes: u32,
    pub max_proof_size_bytes: u32,
    pub max_verification_latency_ms: u32,
}

impl SubnetPolicy {
    /// The subnet policy encoded by the protocol constants.
    pub open spec fn spec_qubitum() -> Self {
        SubnetPolicy {
            creation_burn: MINER_REGISTRATION_BURN,
            miner_bond: MinerBondPolicy::spec_qubitum(),
            min_validator_stake: MIN_MINER_BOND,
            proof_system: ProofSystem::RiscZeroStark,
            min_proof_size_bytes: TARGET_PROOF_SIZE_MIN_BYTES,
            max_proof_size_bytes: TARGET_PROOF_SIZE_MAX_BYTES,
            max_verification_latency_ms: TARGET_VERIFICATION_MS,
        }
    }

    /// Qubitum's default subnet policy.
    pub fn qubitum() -> (r: Self)
        ensures
            r == Self::spec_qubitum(),
    {
        SubnetPolicy {
            creation_burn: MINER_REGISTRATION_BURN,
            miner_bond: MinerBondPolicy::qubitum(),
            min_validator_stake: MIN_MINER_BOND,
            proof_system: ProofSystem::RiscZeroStark,
            min_proof_size_bytes: TARGET_PROOF_SIZE_MIN_BYTES,
            max_proof_size_bytes: TARGET_PROOF_SIZE_MAX_BYTES,
            max_verification_latency_ms: TARGET_VERIFICATION_MS,
        }
    }

    /// Accepts a creation burn of at least the policy's burn and returns it.
    pub fn validate_creation_burn(self, amount: Balance) -> (r: Result<Balance, ProtocolError>)
        ensures
            r == if amount < self.creation_burn {
                Err::<Balance, ProtocolError>(ProtocolError::InvalidCreationBurn)
            } else {
                Ok(amount)
            },
    {
        if amount < self.creation_burn {
            return Err(ProtocolError::InvalidCreationBurn);
        }
        Ok(amount)
    }

    /// Accepts a validator stake of at least the policy's minimum and returns it.
    pub fn validate_validator_stake(self, stake: Balance) -> (r: Result<Balance, ProtocolError>)
        ensures
            r == if stake < self.min_validator_stake {
                Err::<Balance, ProtocolError>(ProtocolError::InvalidStake)
            } else {
                Ok(stake)
            },
    {
        if stake < self.min_validator_stake {
            return Err(ProtocolError::InvalidStake);
        }
        Ok(stake)
    }
}

/// Registered Qubitum subnet metadata.
#[derive(Clone, Copy, Debug, PartialEq, Eq)]
pub struct SubnetConfig {
    pub id: SubnetId,
    pub owner: AccountId,
    pub domain: SubnetDomain,
    pub policy: SubnetPolicy,
    pub active: bool,
}

/// Registered miner metadata.
#[derive(Clone, Copy, Debug, PartialEq, Eq)]
pub struct MinerRegistration {
    pub id: MinerId,
    pub operator: AccountId,
    pub subnet_id: SubnetId,
    pub model_commitment: Commitment,
    pub proof_system: ProofSystem,
    pub bond: Balance,
    pub status: RegistryStatus,
    pub shielded_identity_commitment: Option<Commitment>,
    pub endpoint_commitment: Option<Commitment>,
}

impl MinerRegistration {
    /// Marks the miner active once its bond and model commitment are acceptable.
    pub fn activate(self, policy: MinerBondPolicy) -> (r: Result<Self, ProtocolError>)
        ensures
            r == if !policy.bond_in_bounds(self.bond) {
                Err::<Self, ProtocolError>(ProtocolError::InvalidBond)
            } else if is_zero_commitment(self.model_commitment) {
                Err(ProtocolError::MissingCommitment)
            } else {
                Ok(MinerRegistration { status: RegistryStatus::Active, ..self })
            },
    {
        let mut this = self;
        match policy.validate_bond(this.bond) {
            Err(e) => {
                return Err(e);
            },
            Ok(_) => {},
        }
        if commitment_is_zero(&this.model_commitment) {
            return Err(ProtocolError::MissingCommitment);
        }
        this.status = RegistryStatus::Active;
        Ok(this)
    }

    /// Starts the exit cooldown at `current_block`.
    pub fn begin_exit(self, policy: MinerBondPolicy, current_block: BlockNumber) -> (r: Result<
        Self,
        ProtocolError,
    >)
        ensures
            r == match policy.spec_exit_available_at(current_block) {
                Ok(at) => Ok::<Self, ProtocolError>(
                    MinerRegistration {
                        status: RegistryStatus::Exiting { exit_available_at: at },
                        ..self
                    },
                ),
                Err(e) => Err(e),
            },
    {
        let mut this = self;
        let at = match policy.exit_available_at(current_block) {
            Ok(at) => at,
            Err(e) => {
                return Err(e);
            },
        };
        this.status = RegistryStatus::Exiting { exit_available_at: at };
        Ok(this)
    }
}

/// Registered validator metadata.
#[derive(Clone, Debug, PartialEq, Eq)]
pub struct ValidatorRegistration {
    pub id: ValidatorId,
    pub operator: AccountId,
    pub staked: Balance,
    pub routing_subnets: Vec<SubnetId>,
    pub status: RegistryStatus,
}

impl ValidatorRegistration {
    /// Marks the validator active once its stake meets the policy's minimum.
    pub fn activate(self, policy: SubnetPolicy) -> (r: Result<Self, ProtocolError>)
        ensures
            self.staked < policy.min_validator_stake ==> r == Err::<Self, ProtocolError>(
                ProtocolError::InvalidStake,
            ),
            self.staked >= policy.min_validator_stake ==> (r matches Ok(v) && v.id == self.id
                && v.operator == self.operator && v.staked == self.staked && v.routing_subnets@
                == self.routing_subnets@ && v.status == RegistryStatus::Active),
    {
        let mut this = self;
        match policy.validate_validator_stake(this.staked) {
            Err(e) => {
                return Err(e);
            },
            Ok(_) => {},
        }
        this.status = RegistryStatus::Active;
        Ok(this)
    }
}

/// Proof submission routed from a miner through a validator.
#[derive(Clone, Copy, Debug, PartialEq, Eq)]
pub struct InferenceProofSubmission {
    pub request_id: RequestId,
    pub subnet_id: SubnetId,
    pub miner_id: MinerId,
    pub validator_id: ValidatorId,
    pub input_commitment: Commitment,
    pub output_commitment: Commitment,
    pub model_commitment: Commitment,
    pub proof_commitment: Commitment,
    pub proof_system: ProofSystem,
    pub proof_size_bytes: u32,
    pub verification_latency_ms: u32,
    pub submitted_at: BlockNumber,
}

impl InferenceProofSubmission {
    /// The first policy violation of this submission's shape, if any.
    pub open spec fn shape_error(self, policy: SubnetPolicy) -> Option<ProtocolError> {
        if is_zero_commitment(self.input_commitment) || is_zero_commitment(
            self.output_commitment,
        ) || is_zero_commitment(self.model_commitment) {
            Some(ProtocolError::MissingCommitment)
        } else if self.proof_system != policy.proof_system {
            Some(ProtocolError::ProofSystemMismatch)
        } else if self.proof_size_bytes < policy.min_proof_size_bytes || self.proof_size_bytes
            > policy.max_proof_size_bytes {
            Some(ProtocolError::InvalidProofSize)
        } else if self.verification_latency_ms > policy.max_verification_latency_ms {
            Some(ProtocolError::LatencyExceeded)
        } else {
            None
        }
    }

    /// Checks commitments, proof backend, proof size and verification latency.
    pub fn validate_shape(self, policy: SubnetPolicy) -> (r: Result<Self, ProtocolError>)
        ensures
            r == match self.shape_error(policy) {
                Some(e) => Err(e),
                None => Ok(self),
            },
    {
        if commitment_is_zero(&self.input_commitment) {
            return Err(ProtocolError::MissingCommitment);
        }
        if commitment_is_zero(&self.output_commitment) {
            return Err(ProtocolError::MissingCommitment);
        }
        if commitment_is_zero(&self.model_commitment) {
            return Err(ProtocolError::MissingCommitment);
        }
        if self.proof_system != policy.proof_system {
            return Err(ProtocolError::ProofSystemMismatch);
        }
        if self.proof_size_bytes < policy.min_proof_size_bytes || self.proof_size_bytes
            > policy.max_proof_size_bytes {
            return Err(ProtocolError::InvalidProofSize);
        }
        if self.verification_latency_ms > policy.max_verification_latency_ms {
            return Err(ProtocolError::LatencyExceeded);
        }
        Ok(self)
    }
}

/// Verifier result before settlement.
#[derive(Clone, Copy, Debug, PartialEq, Eq, Structural)]
pub enum VerificationOutcome {
    Valid,
    Invalid { slash_bps: u16 },
    Error,
}

/// Recorded successful inference.
#[derive(Clone, Copy, Debug, PartialEq, Eq)]
pub struct InferenceRecord {
    pub request_id: RequestId,
    pub subnet_id: SubnetId,
    pub miner_id: MinerId,
    pub validator_id: ValidatorId,
    pub input_commitment: Commitment,
    pub output_commitment: Commitment,
    pub model_commitment: Commitment,
    pub recorded_at: BlockNumber,
}

impl InferenceRecord {
    /// The record kept for a submission: its commitments and identifiers, no raw payloads.
    pub open spec fn spec_from_submission(s: InferenceProofSubmission) -> Self {
        InferenceRecord {
            request_id: s.request_id,
            subnet_id: s.subnet_id,
            miner_id: s.miner_id,
            validator_id: s.validator_id,
            input_commitment: s.input_commitment,
            output_commitment: s.output_commitment,
            model_commitment: s.model_commitment,
            recorded_at: s.submitted_at,
        }
    }

    /// Builds the record of a verified submission.
    pub fn from_valid_submission(submission: InferenceProofSubmission) -> (r: Self)
        ensures
            r == Self::spec_from_submission(submission),
    {
        InferenceRecord {
            request_id: submission.request_id,
            subnet_id: submission.subnet_id,
            miner_id: submission.miner_id,
            validator_id: submission.validator_id,
            input_commitment: submission.input_commitment,
            output_commitment: submission.output_commitment,
            model_commitment: submission.model_commitment,
            recorded_at: submission.submitted_at,
        }
    }
}

/// Payment settlement for a valid inference.
#[derive(Clone, Copy, Debug, PartialEq, Eq, Structural)]
pub struct InferenceSettlement {
    pub miner_payment: Balance,
    pub validator_fee: Balance,
    pub treasury_fee: Balance,
}

/// The outcome of `settle_inference_payment`.
pub open spec fn spec_settle_inference_payment(
    payment: Balance,
    validator_fee_bps: u16,
    treasury_fee_bps: u16,
) -> Result<InferenceSettlement, ProtocolError> {
    if validator_fee_bps + treasury_fee_bps > u16::MAX {
        Err(ProtocolError::ArithmeticOverflow)
    } else if validator_fee_bps + treasury_fee_bps > BPS_DENOMINATOR {
        Err(ProtocolError::InvalidRewardSplit)
    } else if pro_rata_overflows(payment, validator_fee_bps) || pro_rata_overflows(
        payment,
        treasury_fee_bps,
    ) {
        Err(ProtocolError::ArithmeticOverflow)
    } else {
        let validator_fee = pro_rata_value(payment as int, validator_fee_bps as int);
        let treasury_fee = pro_rata_value(payment as int, treasury_fee_bps as int);
        Ok(
            InferenceSettlement {
                miner_payment: (payment - validator_fee - treasury_fee) as u128,
                validator_fee: validator_fee as u128,
                treasury_fee: treasury_fee as u128,
            },
        )
    }
}

/// Splits a payment into validator fee, treasury fee and the miner's remainder.
pub fn settle_inference_payment(
    payment: Balance,
    validator_fee_bps: u16,
    treasury_fee_bps: u16,
) -> (r: Result<InferenceSettlement, ProtocolError>)
    ensures
        r == spec_settle_inference_payment(payment, validator_fee_bps, treasury_fee_bps),
        r matches Ok(s) ==> s.miner_payment + s.validator_fee + s.treasury_fee == payment,
{
    let combined_bps = match validator_fee_bps.checked_add(treasury_fee_bps) {
        Some(v) => v,
        None => {
            return Err(ProtocolError::ArithmeticOverflow);
        },
    };
    if combined_bps > BPS_DENOMINATOR {
        return Err(ProtocolError::InvalidRewardSplit);
    }
    let validator_fee = match pro_rata(payment, validator_fee_bps) {
        Ok(v) => v,
        Err(e) => {
            return Err(e);
        },
    };
    let treasury_fee = match pro_rata(payment, treasury_fee_bps) {
        Ok(v) => v,
        Err(e) => {
            return Err(e);
        },
    };
    proof {
        lemma_pro_rata_pair_bounded(
            payment as int,
            validator_fee_bps as int,
            treasury_fee_bps as int,
        );
    }
    let assigned = validator_fee + treasury_fee;
    let miner_payment = payment - assigned;
    Ok(InferenceSettlement { miner_payment, validator_fee, treasury_fee })
}

/// Privacy table from the protocol specification.
pub open spec fn spec_privacy_table() -> Seq<PrivacyElement> {
    seq![
        PrivacyElement {
            element: PrivacyElementKind::ModelWeights,
            visibility: Visibility::Private,
        },
        PrivacyElement {
            element: PrivacyElementKind::InferenceInput,
            visibility: Visibility::Private,
        },
        PrivacyElement {
            element: PrivacyElementKind::InferenceOutput,
            visibility: Visibility::Public,
        },
        PrivacyElement {
            element: PrivacyElementKind::MinerIdentity,
            visibility: Visibility::Optional,
        },
    ]
}

/// The privacy table: weights and inputs private, outputs public, miner identity optional.
pub fn privacy_table() -> (t: [PrivacyElement; 4])
    ensures
        t@ == spec_privacy_table(),
{
    let t = [
        PrivacyElement {
            element: PrivacyElementKind::ModelWeights,
            visibility: Visibility::Private,
        },
        PrivacyElement {
            element: PrivacyElementKind::InferenceInput,
            visibility: Visibility::Private,
        },
        PrivacyElement {
            element: PrivacyElementKind::InferenceOutput,
            visibility: Visibility::Public,
        },
        PrivacyElement {
            element: PrivacyElementKind::MinerIdentity,
            visibility: Visibility::Optional,
        },
    ];
    assert(t@ =~= spec_privacy_table());
    t
}

/// The signature mode of a roadmap year.
pub open spec fn spec_signature_mode_for_year(year: u16) -> SignatureMode {
    if year <= 1 {
        SignatureMode::ClassicalEcdsa
    } else if year == 2 {
        SignatureMode::HybridDilithium
    } else {
        SignatureMode::FullPostQuantum
    }
}

/// Returns the signature mode expected for a roadmap phase.
pub fn signature_mode_for_year(year: u16) -> (r: SignatureMode)
    ensures
        r == spec_signature_mode_for_year(year),
{
    if year <= 1 {
        SignatureMode::ClassicalEcdsa
    } else if year == 2 {
        SignatureMode::HybridDilithium
    } else {
        SignatureMode::FullPostQuantum
    }
}

/// The halving epoch of a block, saturated at `u32::MAX`.
pub open spec fn spec_halving_epoch(block: BlockNumber) -> u32 {
    let epoch = block / HALVING_INTERVAL_BLOCKS;
    if epoch > u32::MAX {
        u32::MAX
    } else {
        epoch as u32
    }
}

/// Returns the halving epoch for a block number.
pub fn halving_epoch(block: BlockNumber) -> (r: u32)
    ensures
        r == spec_halving_epoch(block),
{
    let epoch = block / HALVING_INTERVAL_BLOCKS;
    if epoch > u32::MAX as u64 {
        u32::MAX
    } else {
        epoch as u32
    }
}

/// The number of halvings applied at a block: the epoch, capped at 127.
pub open spec fn spec_halving_shift(block: BlockNumber) -> nat {
    if spec_halving_epoch(block) > 127 {
        127
    } else {
        spec_halving_epoch(block) as nat
    }
}

/// The emission at a block: the initial emission halved once per elapsed epoch.
pub open spec fn spec_emission_after_halvings(
    initial_emission: Balance,
    block: BlockNumber,
) -> Balance {
    (initial_emission as nat / vstd::arithmetic::power2::pow2(spec_halving_shift(block))) as u128
}

/// Applies Qubitum's four-year halving schedule to an emission amount.
pub fn emission_after_halvings(initial_emission: Balance, block: BlockNumber) -> (r: Result<
    Balance,
    ProtocolError,
>)
    ensures
        r == Ok::<Balance, ProtocolError>(
            spec_emission_after_halvings(initial_emission, block),
        ),
{
    let halvings = halving_epoch(block);
    let shift: u32 = if halvings > 127 {
        127
    } else {
        halvings
    };
    let shift_wide: u128 = shift as u128;
    proof {
        vstd::bits::lemma_u128_shr_is_div(initial_emission, shift_wide);
    }
    Ok(initial_emission >> shift_wide)
}

/// The emission never grows from one block to a later one.
pub proof fn lemma_emission_non_increasing(initial_emission: Balance, b1: BlockNumber, b2: BlockNumber)
    requires
        b1 <= b2,
    ensures
        spec_emission_after_halvings(initial_emission, b2) <= spec_emission_after_halvings(
            initial_emission,
            b1,
        ),
{
    let s1 = spec_halving_shift(b1);
    let s2 = spec_halving_shift(b2);
    assert(b1 / HALVING_INTERVAL_BLOCKS <= b2 / HALVING_INTERVAL_BLOCKS) by (nonlinear_arith)
        requires
            b1 <= b2,
    ;
    assert(s1 <= s2);
    vstd::arithmetic::power2::lemma_pow2_pos(s1);
    vstd::arithmetic::power2::lemma_pow2_pos(s2);
    vstd::arithmetic::power2::lemma_pow2_adds(s1, (s2 - s1) as nat);
    vstd::arithmetic::power2::lemma_pow2_pos((s2 - s1) as nat);
    let p1 = vstd::arithmetic::power2::pow2(s1) as int;
    let p2 = vstd::arithmetic::power2::pow2(s2) as int;
    let x = initial_emission as int;
    assert(p1 <= p2) by (nonlinear_arith)
        requires
            p2 == p1 * vstd::arithmetic::power2::pow2((s2 - s1) as nat),
            vstd::arithmetic::power2::pow2((s2 - s1) as nat) > 0,
            p1 > 0,
    ;
    vstd::arithmetic::div_mod::lemma_div_is_ordered_by_denominator(x, p1, p2);
    vstd::arithmetic::div_mod::lemma_div_pos_is_pos(x, p1);
    vstd::arithmetic::div_mod::lemma_div_pos_is_pos(x, p2);
    vstd::arithmetic::div_mod::lemma_div_is_ordered_by_denominator(x, 1, p1);
}

/// Each halving interval halves the emission, rounding down, until the shift cap is reached.
pub proof fn lemma_emission_halves_each_interval(initial_emission: Balance, block: BlockNumber)
    requires
        block + HALVING_INTERVAL_BLOCKS <= u64::MAX,
        block / HALVING_INTERVAL_BLOCKS < 127,
    ensures
        spec_emission_after_halvings(initial_emission, (block + HALVING_INTERVAL_BLOCKS) as u64)
            == spec_emission_after_halvings(initial_emission, block) / 2,
{
    let later = (block + HALVING_INTERVAL_BLOCKS) as u64;
    assert(later / HALVING_INTERVAL_BLOCKS == block / HALVING_INTERVAL_BLOCKS + 1) by (nonlinear_arith)
        requires
            later == block + 10_512_000,
    ;
    let s = spec_halving_shift(block);
    assert(spec_halving_shift(later) == s + 1);
    vstd::arithmetic::power2::lemma_pow2_pos(s);
    vstd::arithmetic::power2::lemma_pow2_unfold(s + 1);
    let p = vstd::arithmetic::power2::pow2(s) as int;
    vstd::arithmetic::div_mod::lemma_div_denominator(initial_emission as int, p, 2);
    vstd::arithmetic::div_mod::lemma_div_pos_is_pos(initial_emission as int, p);
    vstd::arithmetic::div_mod::lemma_div_is_ordered_by_denominator(initial_emission as int, 1, p);
    vstd::arithmetic::div_mod::lemma_div_is_ordered_by_denominator(initial_emission as int, 1, p * 2);
}

/// A reward split allocates only when its three rates add up to exactly 100%; then the miner
/// and the validator each receive their own rate of the amount, rounded down, the treasury the
/// rest, and nothing is lost. A split whose rates add up to 100% always allocates an amount
/// whose shares fit a balance.
pub proof fn lemma_allocation_follows_split_rates(split: RewardSplit, amount: Balance)
    ensures
        split.spec_allocate(amount) matches Ok(a) ==> {
            &&& split.miner_bps + split.validator_bps + split.treasury_bps == 10000
            &&& a.miner as int == amount as int * split.miner_bps as int / 10000
            &&& a.validator as int == amount as int * split.validator_bps as int / 10000
            &&& a.miner + a.validator + a.treasury == amount
        },
        split.miner_bps + split.validator_bps + split.treasury_bps != 10000 ==> split.spec_allocate(
            amount,
        ) is Err,
        split.miner_bps + split.validator_bps + split.treasury_bps == 10000 && amount as int
            * split.miner_bps as int <= u128::MAX && amount as int * split.validator_bps as int
            <= u128::MAX ==> split.spec_allocate(amount) is Ok,
{
    if split.miner_bps + split.validator_bps <= 10000 {
        lemma_pro_rata_pair_bounded(amount as int, split.miner_bps as int, split.validator_bps as int);
    }
}

/// A payment settles only when the validator and treasury rates together take at most 100%;
/// then each fee is its rate of the payment, rounded down, and the miner receives the rest.
/// Such rates always settle a payment whose fees fit a balance.
pub proof fn lemma_settlement_follows_fee_rates(payment: Balance, validator_fee_bps: u16, treasury_fee_bps: u16)
    ensures
        spec_settle_inference_payment(payment, validator_fee_bps, treasury_fee_bps) matches Ok(s) ==> {
            &&& validator_fee_bps + treasury_fee_bps <= 10000
            &&& s.validator_fee as int == payment as int * validator_fee_bps as int / 10000
            &&& s.treasury_fee as int == payment as int * treasury_fee_bps as int / 10000
            &&& s.miner_payment as int == payment - s.validator_fee - s.treasury_fee
            &&& s.miner_payment + s.validator_fee + s.treasury_fee == payment
        },
        validator_fee_bps + treasury_fee_bps > 10000 ==> spec_settle_inference_payment(
            payment,
            validator_fee_bps,
            treasury_fee_bps,
        ) is Err,
        validator_fee_bps + treasury_fee_bps <= 10000 && payment as int * validator_fee_bps as int
            <= u128::MAX && payment as int * treasury_fee_bps as int <= u128::MAX
            ==> spec_settle_inference_payment(payment, validator_fee_bps, treasury_fee_bps) is Ok,
{
    if validator_fee_bps + treasury_fee_bps <= 10000 {
        lemma_pro_rata_pair_bounded(payment as int, validator_fee_bps as int, treasury_fee_bps as int);
    }
}

/// A submission passes the shape check exactly when its input, output and model commitments
/// are set, it uses the policy's proof system, its proof size lies within the policy's bounds
/// and its verification latency within the policy's limit.
pub proof fn lemma_shape_check_accepts_exactly(s: InferenceProofSubmission, policy: SubnetPolicy)
    ensures
        s.shape_error(policy) is None <==> {
            &&& !is_zero_commitment(s.input_commitment)
            &&& !is_zero_commitment(s.output_commitment)
            &&& !is_zero_commitment(s.model_commitment)
            &&& s.proof_system == policy.proof_system
            &&& policy.min_proof_size_bytes <= s.proof_size_bytes
            &&& s.proof_size_bytes <= policy.max_proof_size_bytes
            &&& s.verification_latency_ms <= policy.max_verification_latency_ms
        },
{
}

/// The position of a signature mode on the post-quantum roadmap.
pub open spec fn roadmap_rank(mode: SignatureMode) -> int {
    match mode {
        SignatureMode::ClassicalEcdsa => 0,
        SignatureMode::HybridDilithium => 1,
        SignatureMode::FullPostQuantum => 2,
    }
}

/// The roadmap runs classical ECDSA through year one, hybrid Dilithium in year two, and full
/// post-quantum signatures from year three on.
pub proof fn lemma_signature_roadmap(year: u16)
    ensures
        year <= 1 ==> spec_signature_mode_for_year(year) == SignatureMode::ClassicalEcdsa,
        year == 2 ==> spec_signature_mode_for_year(year) == SignatureMode::HybridDilithium,
        year >= 3 ==> spec_signature_mode_for_year(year) == SignatureMode::FullPostQuantum,
{
}

/// The roadmap never goes back: a later year's mode is never weaker than an earlier one's.
pub proof fn lemma_signature_roadmap_never_regresses(earlier: u16, later: u16)
    requires
        earlier <= later,
    ensures
        roadmap_rank(spec_signature_mode_for_year(earlier)) <= roadmap_rank(
            spec_signature_mode_for_year(later),
        ),
{
}

/// A slash is taken only at a rate within the policy's bounds, and it is that rate of the
/// bond, rounded down.
pub proof fn lemma_slash_amount_follows_rate(policy: MinerBondPolicy, bond: Balance, slash_bps: u16)
    ensures
        policy.spec_slash_amount(bond, slash_bps) matches Ok(amount) ==> {
            &&& policy.min_invalid_proof_slash_bps <= slash_bps
            &&& slash_bps <= policy.max_invalid_proof_slash_bps
            &&& amount as int == bond as int * slash_bps as int / 10000
        },
        slash_bps < policy.min_invalid_proof_slash_bps || slash_bps
            > policy.max_invalid_proof_slash_bps ==> policy.spec_slash_amount(bond, slash_bps)
            is Err,
{
    if policy.spec_slash_amount(bond, slash_bps) is Ok {
        assert(0 <= bond as int * slash_bps as int / 10000 <= bond as int * slash_bps as int)
            by (nonlinear_arith);
    }
}

/// An exit completes exactly the cooldown after the block it starts at.
pub proof fn lemma_exit_follows_cooldown(policy: MinerBondPolicy, current_block: BlockNumber)
    ensures
        policy.spec_exit_available_at(current_block) matches Ok(at) ==> at == current_block
            + policy.exit_cooldown_blocks,
        current_block + policy.exit_cooldown_blocks <= u64::MAX ==> policy.spec_exit_available_at(
            current_block,
        ) is Ok,
{
}

/// The emission is the initial emission throughout the first halving interval, and never
/// more than it later.
pub proof fn lemma_emission_starts_at_initial(initial_emission: Balance, block: BlockNumber)
    ensures
        block < HALVING_INTERVAL_BLOCKS ==> spec_emission_after_halvings(initial_emission, block)
            == initial_emission,
        spec_emission_after_halvings(initial_emission, block) <= initial_emission,
{
    lemma_emission_non_increasing(initial_emission, 0, block);
    assert(spec_halving_epoch(0) == 0);
    assert(vstd::arithmetic::power2::pow2(0) == 1) by {
        vstd::arithmetic::power2::lemma2_to64();
    }
    if block < HALVING_INTERVAL_BLOCKS {
        assert(block / HALVING_INTERVAL_BLOCKS == 0);
        assert(spec_halving_shift(block) == 0);
        assert(initial_emission as nat / 1 == initial_emission as nat);
        assert(spec_emission_after_halvings(initial_emission, block) == (initial_emission as nat
            / vstd::arithmetic::power2::pow2(0)) as u128);
    }
}

/// The halving epoch of a block is the number of whole halving intervals before it: every
/// block of the `k`-th interval lies in epoch `k`.
pub proof fn lemma_halving_epoch_counts_intervals(block: BlockNumber)
    ensures
        block / HALVING_INTERVAL_BLOCKS <= u32::MAX ==> spec_halving_epoch(block) as int * 10_512_000
            <= block < (spec_halving_epoch(block) as int + 1) * 10_512_000,
{
    let e = block / HALVING_INTERVAL_BLOCKS;
    assert(e * 10_512_000 <= block < (e + 1) * 10_512_000) by (nonlinear_arith)
        requires
            e == block / 10_512_000,
    ;
}

/// The privacy table keeps model weights and inference inputs private, makes inference
/// outputs public and leaves the miner's identity optional.
pub proof fn lemma_privacy_table()
    ensures
        spec_privacy_table().len() == 4,
        spec_privacy_table()[0] == (PrivacyElement {
            element: PrivacyElementKind::ModelWeights,
            visibility: Visibility::Private,
        }),
        spec_privacy_table()[1] == (PrivacyElement {
            element: PrivacyElementKind::InferenceInput,
            visibility: Visibility::Private,
        }),
        spec_privacy_table()[2] == (PrivacyElement {
            element: PrivacyElementKind::InferenceOutput,
            visibility: Visibility::Public,
        }),
        spec_privacy_table()[3] == (PrivacyElement {
            element: PrivacyElementKind::MinerIdentity,
            visibility: Visibility::Optional,
        }),
{
}

/// The protocol's constants: a 21 million QBT supply of 10^9 plancks each, halving every
/// 10,512,000 blocks; a 50% / 30% / 20% emission split; a 10 QBT registration burn; bonds of
/// 100 to 10,000 QBT with a 50,400-block exit cooldown; invalid-proof slashes of 10% to 100%;
/// proofs of 50 to 200 KiB verified within 100 ms on RISC Zero STARKs.
pub proof fn lemma_protocol_constants()
    ensures
        INITIAL_SUPPLY == INITIAL_SUPPLY_QBT * PLANCKS_PER_QBT,
        INITIAL_SUPPLY_QBT == 21_000_000,
        PLANCKS_PER_QBT == 1_000_000_000,
        HALVING_INTERVAL_BLOCKS == 10_512_000,
        RewardSplit::spec_qubitum() == (RewardSplit { miner_bps: 5000, validator_bps: 3000, treasury_bps: 2000 }),
        RewardSplit::spec_qubitum().split_error() is None,
        MinerBondPolicy::spec_qubitum().registration_burn == 10 * PLANCKS_PER_QBT,
        MinerBondPolicy::spec_qubitum().min_bond == 100 * PLANCKS_PER_QBT,
        MinerBondPolicy::spec_qubitum().max_bond == 10_000 * PLANCKS_PER_QBT,
        MinerBondPolicy::spec_qubitum().exit_cooldown_blocks == 50_400,
        MinerBondPolicy::spec_qubitum().min_invalid_proof_slash_bps == 1000,
        MinerBondPolicy::spec_qubitum().max_invalid_proof_slash_bps == 10000,
        SubnetPolicy::spec_qubitum().proof_system == ProofSystem::RiscZeroStark,
        SubnetPolicy::spec_qubitum().min_proof_size_bytes == 50 * 1024,
        SubnetPolicy::spec_qubitum().max_proof_size_bytes == 200 * 1024,
        SubnetPolicy::spec_qubitum().max_verification_latency_ms == 100,
        SubnetPolicy::spec_qubitum().min_validator_stake == 100 * PLANCKS_PER_QBT,
        SubnetPolicy::spec_qubitum().creation_burn == 10 * PLANCKS_PER_QBT,
{
}

} // verus!
