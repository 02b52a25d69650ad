//! Decision rules behind the chain's dispatchables that need no storage: the fee split of an
//! inference payment, the freshness window of a proof submission, the slashing of locked
//! capital, and the running totals of inference accounting.
use vstd::prelude::*;

use crate::chain::ChainAccounting;
use crate::{
    pro_rata, pro_rata_overflows, pro_rata_value, Balance, BlockNumber, ProtocolError,
    RegistryStatus, BPS_DENOMINATOR,
};

verus! {

/// Why a chain rule refuses an operation.
#[derive(Clone, Copy, Debug, PartialEq, Eq, Structural)]
pub enum ChainRuleError {
    /// Arithmetic overflow.
    ArithmeticOverflow,
    /// Validator and treasury fee split is invalid.
    InvalidFeeSplit,
    /// Slash percent is outside policy bounds.
    InvalidSlashPercent,
    /// The locked amount cannot cover the slash.
    FundsUnavailable,
    /// Proof submission claims a block after the current one.
    ProofSubmittedFromFuture,
    /// Proof submission is older than the accepted window.
    ProofSubmissionExpired,
    /// Request status accounting was inconsistent.
    RequestStatusCounterUnderflow,
    /// Pending assignment accounting was inconsistent.
    PendingAssignmentUnderflow,
    /// The subnet does not exist.
    UnknownSubnet,
    /// The miner does not exist.
    UnknownMiner,
    /// The validator does not exist.
    UnknownValidator,
    /// Assigned miner or validator does not belong to the request subnet.
    ParticipantMismatch,
    /// Miner or validator is not active.
    NotActive,
    /// Miner and validator cannot be controlled by the same operator.
    SelfValidation,
    /// Request ID must match the chain-owned next request ID.
    InvalidRequestId,
    /// A participant's identity signature bundle is not recorded.
    MissingSignatureBundle,
    /// A participant's identity signature bundle is not valid for its challenge.
    InvalidSignatureBundle,
    /// Caller is not the registered operator.
    NotOperator,
    /// Caller is not the validator assigned to the proof.
    NotValidatorOperator,
    /// Caller does not own the inference request.
    NotRequestOwner,
    /// Commitment cannot be all zeros.
    MissingCommitment,
    /// Miner or validator still has pending assigned inference requests.
    PendingAssignedRequests,
    /// Subnet has reached the active miner routing index bound.
    TooManyActiveMiners,
    /// Subnet has reached the active validator routing index bound.
    TooManyActiveValidators,
    /// Validator status does not allow this lifecycle transition.
    InvalidValidatorStatus,
    /// Proof record already exists for the request.
    DuplicateProof,
    /// Inference request is missing.
    UnknownRequest,
    /// Inference request has already been settled.
    RequestAlreadySettled,
    /// Proof submission does not match the escrowed request.
    RequestMismatch,
    /// The requested proof system does not match subnet policy.
    ProofSystemMismatch,
    /// Proof size metadata is outside accepted bounds.
    InvalidProofSize,
    /// Verification latency exceeds policy.
    LatencyExceeded,
    /// Submitted model commitment does not match the registered miner model.
    ModelCommitmentMismatch,
    /// Submitted assignment does not match the request's route.
    AssignmentMismatch,
    /// Inference payment must be greater than zero.
    InvalidPayment,
    /// A participant's locked capital record is missing.
    MissingCapitalRecord,
    /// The proof verifier could not reach a verdict.
    VerifierError,
    /// The request cannot be cancelled or expired yet.
    RequestCancelUnavailable,
    /// The proof system is not accepted for registration.
    UnsupportedProofSystem,
    /// Miner status does not allow this lifecycle transition.
    InvalidMinerStatus,
    /// Miner bond is outside policy bounds.
    InvalidBond,
    /// Validator stake is below the minimum.
    InvalidStake,
    /// The miner's exit cooldown has not completed.
    MinerExitUnavailable,
    /// The validator's exit cooldown has not completed.
    ValidatorExitUnavailable,
    /// Requests name no participants: the chain assigns the route.
    RouteAssignmentMustBeHidden,
    /// An inference request with this id already exists.
    DuplicateRequest,
    /// No active miner and validator pair can serve the subnet now.
    NoRouteAvailable,
    /// A challenged proof verified as valid.
    ChallengeProofValid,
    /// The proof's journal does not commit to the submission's transcript.
    ProofTranscriptMismatch,
}

/// The error, if any, of a validator and treasury fee split.
pub open spec fn spec_fee_split_error(validator_fee_bps: u16, treasury_fee_bps: u16) -> Option<
    ChainRuleError,
> {
    if validator_fee_bps + treasury_fee_bps > u16::MAX {
        Some(ChainRuleError::ArithmeticOverflow)
    } else if validator_fee_bps + treasury_fee_bps > BPS_DENOMINATOR {
        Some(ChainRuleError::InvalidFeeSplit)
    } else {
        None
    }
}

/// Accepts a fee split whose two rates together take at most the whole payment.
pub fn validate_fee_split(validator_fee_bps: u16, treasury_fee_bps: u16) -> (r: Result<
    (),
    ChainRuleError,
>)
    ensures
        r == match spec_fee_split_error(validator_fee_bps, treasury_fee_bps) {
            Some(e) => Err(e),
            None => Ok(()),
        },
{
    let combined = match validator_fee_bps.checked_add(treasury_fee_bps) {
        Some(c) => c,
        None => return Err(ChainRuleError::ArithmeticOverflow),
    };
    if combined > BPS_DENOMINATOR {
        return Err(ChainRuleError::InvalidFeeSplit);
    }
    Ok(())
}

/// The split of an inference payment into miner payment, validator fee and treasury fee.
pub open spec fn spec_payment_split(payment: Balance, validator_fee_bps: u16, treasury_fee_bps: u16) -> Result<
    (Balance, Balance, Balance),
    ChainRuleError,
> {
    match spec_fee_split_error(validator_fee_bps, treasury_fee_bps) {
        Some(e) => Err(e),
        None => if pro_rata_overflows(payment, validator_fee_bps) || pro_rata_overflows(
            payment,
            treasury_fee_bps,
        ) {
            Err(ChainRuleError::ArithmeticOverflow)
        } else {
            let validator_fee = pro_rata_value(payment as int, validator_fee_bps as int);
            let treasury_fee = pro_rata_value(payment as int, treasury_fee_bps as int);
            Ok(
                (
                    (payment - validator_fee - treasury_fee) as Balance,
                    validator_fee as Balance,
                    treasury_fee as Balance,
                ),
            )
        },
    }
}

fn overflow_error(e: ProtocolError) -> (r: ChainRuleError)
    ensures
        r == ChainRuleError::ArithmeticOverflow,
{
    ChainRuleError::ArithmeticOverflow
}

/// Splits an inference payment: the validator and treasury take their basis-point fees,
/// rounded down, and the miner takes the rest, so the three parts add up to the payment.
pub fn payment_split(payment: Balance, validator_fee_bps: u16, treasury_fee_bps: u16) -> (r:
    Result<(Balance, Balance, Balance), ChainRuleError>)
    ensures
        r == spec_payment_split(payment, validator_fee_bps, treasury_fee_bps),
        r matches Ok((miner, validator, treasury)) ==> miner + validator + treasury == payment,
{
    match validate_fee_split(validator_fee_bps, treasury_fee_bps) {
        Ok(()) => {},
        Err(e) => return Err(e),
    }
    let validator_fee = match pro_rata(payment, validator_fee_bps) {
        Ok(v) => v,
        Err(e) => return Err(overflow_error(e)),
    };
    let treasury_fee = match pro_rata(payment, treasury_fee_bps) {
        Ok(v) => v,
        Err(e) => return Err(overflow_error(e)),
    };
    proof {
        crate::lemma_pro_rata_pair_bounded(
            payment as int,
            validator_fee_bps as int,
            treasury_fee_bps as int,
        );
    }
    let assigned = validator_fee + treasury_fee;
    let miner_payment = payment - assigned;
    Ok((miner_payment, validator_fee, treasury_fee))
}

/// The freshness verdict of a proof submitted at `submitted_at`, seen at block `current`:
/// it may not come from the future nor be older than `max_age_blocks`.
pub open spec fn spec_submission_freshness(
    submitted_at: BlockNumber,
    current: BlockNumber,
    max_age_blocks: BlockNumber,
) -> Result<(), ChainRuleError> {
    if submitted_at > current {
        Err(ChainRuleError::ProofSubmittedFromFuture)
    } else if submitted_at + max_age_blocks < current {
        Err(ChainRuleError::ProofSubmissionExpired)
    } else {
        Ok(())
    }
}

/// Accepts a proof submitted no later than `current` and at most `max_age_blocks` before it.
pub fn ensure_submission_fresh(
    submitted_at: BlockNumber,
    current: BlockNumber,
    max_age_blocks: BlockNumber,
) -> (r: Result<(), ChainRuleError>)
    ensures
        r == spec_submission_freshness(submitted_at, current, max_age_blocks),
{
    if submitted_at > current {
        return Err(ChainRuleError::ProofSubmittedFromFuture);
    }
    let oldest = current.saturating_sub(max_age_blocks);
    if submitted_at < oldest {
        return Err(ChainRuleError::ProofSubmissionExpired);
    }
    Ok(())
}

/// What a slash of locked capital leaves behind.
#[derive(Clone, Copy, Debug, PartialEq, Eq, Structural)]
pub struct SlashOutcome {
    /// The amount burned from the lock.
    pub burned: Balance,
    /// The amount still locked.
    pub remaining: Balance,
    /// The participant's status after the slash.
    pub status: RegistryStatus,
    /// Whether the participant leaves its subnet's routing index.
    pub removed_from_index: bool,
    /// The running total of burned balance after the slash.
    pub total_burned: Balance,
}

/// The outcome of slashing `slash_bps` of a participant's `locked` capital: the rate must lie
/// within `[min_slash_bps, max_slash_bps]`; a participant left below `min_locked` that is not
/// exiting is marked slashed and leaves the routing index.
pub open spec fn spec_slash_locked_capital(
    locked: Balance,
    slash_bps: u16,
    min_slash_bps: u16,
    max_slash_bps: u16,
    min_locked: Balance,
    status: RegistryStatus,
    total_burned: Balance,
) -> Result<SlashOutcome, ChainRuleError> {
    if slash_bps < min_slash_bps || slash_bps > max_slash_bps {
        Err(ChainRuleError::InvalidSlashPercent)
    } else if pro_rata_overflows(locked, slash_bps) {
        Err(ChainRuleError::ArithmeticOverflow)
    } else {
        let amount = pro_rata_value(locked as int, slash_bps as int);
        if total_burned + amount > u128::MAX {
            Err(ChainRuleError::ArithmeticOverflow)
        } else if amount > locked {
            Err(ChainRuleError::FundsUnavailable)
        } else {
            let remaining = locked - amount;
            let demoted = remaining < min_locked && !(status is Exiting);
            Ok(
                SlashOutcome {
                    burned: amount as Balance,
                    remaining: remaining as Balance,
                    status: if demoted {
                        RegistryStatus::Slashed
                    } else {
                        status
                    },
                    removed_from_index: demoted,
                    total_burned: (total_burned + amount) as Balance,
                },
            )
        }
    }
}

/// Slashes `slash_bps` of a participant's locked capital, as an invalid proof does to a miner's
/// bond or a validator's stake.
pub fn slash_locked_capital(
    locked: Balance,
    slash_bps: u16,
    min_slash_bps: u16,
    max_slash_bps: u16,
    min_locked: Balance,
    status: RegistryStatus,
    total_burned: Balance,
) -> (r: Result<SlashOutcome, ChainRuleError>)
    ensures
        r == spec_slash_locked_capital(
            locked,
            slash_bps,
            min_slash_bps,
            max_slash_bps,
            min_locked,
            status,
            total_burned,
        ),
        r matches Ok(o) ==> o.burned + o.remaining == locked && o.total_burned == total_burned
            + o.burned,
{
    if slash_bps < min_slash_bps || slash_bps > max_slash_bps {
        return Err(ChainRuleError::InvalidSlashPercent);
    }
    let amount = match pro_rata(locked, slash_bps) {
        Ok(v) => v,
        Err(e) => return Err(overflow_error(e)),
    };
    let new_total = match total_burned.checked_add(amount) {
        Some(t) => t,
        None => return Err(ChainRuleError::ArithmeticOverflow),
    };
    if amount > locked {
        return Err(ChainRuleError::FundsUnavailable);
    }
    let remaining = locked - amount;
    let exiting = match status {
        RegistryStatus::Exiting { .. } => true,
        _ => false,
    };
    let demoted = remaining < min_locked && !exiting;
    let new_status = if demoted {
        RegistryStatus::Slashed
    } else {
        status
    };
    Ok(
        SlashOutcome {
            burned: amount,
            remaining,
            status: new_status,
            removed_from_index: demoted,
            total_burned: new_total,
        },
    )
}

fn checked_total(total: Balance, amount: Balance) -> (r: Result<Balance, ChainRuleError>)
    ensures
        total + amount > u128::MAX ==> r == Err::<Balance, ChainRuleError>(
            ChainRuleError::ArithmeticOverflow,
        ),
        total + amount <= u128::MAX ==> r == Ok::<Balance, ChainRuleError>((total + amount) as Balance),
{
    match total.checked_add(amount) {
        Some(t) => Ok(t),
        None => Err(ChainRuleError::ArithmeticOverflow),
    }
}

/// Records an escrowed inference payment; fails when the escrow total would overflow.
pub fn record_inference_escrow(accounting: ChainAccounting, payment: Balance) -> (r: Result<
    ChainAccounting,
    ChainRuleError,
>)
    ensures
        r == if accounting.total_inference_escrowed + payment > u128::MAX {
            Err::<ChainAccounting, ChainRuleError>(ChainRuleError::ArithmeticOverflow)
        } else {
            Ok(
                ChainAccounting {
                    total_inference_escrowed: (accounting.total_inference_escrowed
                        + payment) as Balance,
                    ..accounting
                },
            )
        },
{
    match checked_total(accounting.total_inference_escrowed, payment) {
        Ok(t) => Ok(ChainAccounting { total_inference_escrowed: t, ..accounting }),
        Err(e) => Err(e),
    }
}

/// Records a refunded inference payment; fails when the refund total would overflow.
pub fn record_inference_refund(accounting: ChainAccounting, payment: Balance) -> (r: Result<
    ChainAccounting,
    ChainRuleError,
>)
    ensures
        r == if accounting.total_inference_refunded + payment > u128::MAX {
            Err::<ChainAccounting, ChainRuleError>(ChainRuleError::ArithmeticOverflow)
        } else {
            Ok(
                ChainAccounting {
                    total_inference_refunded: (accounting.total_inference_refunded
                        + payment) as Balance,
                    ..accounting
                },
            )
        },
{
    match checked_total(accounting.total_inference_refunded, payment) {
        Ok(t) => Ok(ChainAccounting { total_inference_refunded: t, ..accounting }),
        Err(e) => Err(e),
    }
}

/// Records a settled inference: miner payout, validator fee and treasury fee each add to their
/// total; fails, changing nothing, when any total would overflow.
pub fn record_inference_settlement(
    accounting: ChainAccounting,
    miner_payment: Balance,
    validator_fee: Balance,
    treasury_fee: Balance,
) -> (r: Result<ChainAccounting, ChainRuleError>)
    ensures
        r == if accounting.total_miner_payouts + miner_payment > u128::MAX
            || accounting.total_validator_fees + validator_fee > u128::MAX
            || accounting.total_treasury_fees + treasury_fee > u128::MAX {
            Err::<ChainAccounting, ChainRuleError>(ChainRuleError::ArithmeticOverflow)
        } else {
            Ok(
                ChainAccounting {
                    total_miner_payouts: (accounting.total_miner_payouts
                        + miner_payment) as Balance,
                    total_validator_fees: (accounting.total_validator_fees
                        + validator_fee) as Balance,
                    total_treasury_fees: (accounting.total_treasury_fees
                        + treasury_fee) as Balance,
                    ..accounting
                },
            )
        },
{
    let miner = match checked_total(accounting.total_miner_payouts, miner_payment) {
        Ok(t) => t,
        Err(e) => return Err(e),
    };
    let validator = match checked_total(accounting.total_validator_fees, validator_fee) {
        Ok(t) => t,
        Err(e) => return Err(e),
    };
    let treasury = match checked_total(accounting.total_treasury_fees, treasury_fee) {
        Ok(t) => t,
        Err(e) => return Err(e),
    };
    Ok(
        ChainAccounting {
            total_miner_payouts: miner,
            total_validator_fees: validator,
            total_treasury_fees: treasury,
            ..accounting
        },
    )
}

/// The inference payouts recorded in `accounting`: miner payouts, validator fees and treasury
/// fees together.
pub open spec fn paid_out(accounting: ChainAccounting) -> int {
    accounting.total_miner_payouts + accounting.total_validator_fees
        + accounting.total_treasury_fees
}

/// Settling an escrowed payment pays out exactly what was escrowed: after escrowing `payment`
/// and recording its split, the payout totals grow by as much as the escrow total did.
pub proof fn lemma_settlement_pays_out_escrow(
    before: ChainAccounting,
    escrowed: ChainAccounting,
    settled: ChainAccounting,
    payment: Balance,
    validator_fee_bps: u16,
    treasury_fee_bps: u16,
)
    requires
        before.total_inference_escrowed + payment <= u128::MAX,
        escrowed == (ChainAccounting {
            total_inference_escrowed: (before.total_inference_escrowed + payment) as Balance,
            ..before
        }),
        spec_payment_split(payment, validator_fee_bps, treasury_fee_bps) matches Ok(
            (miner, validator, treasury),
        ) && settled == (ChainAccounting {
            total_miner_payouts: (escrowed.total_miner_payouts + miner) as Balance,
            total_validator_fees: (escrowed.total_validator_fees + validator) as Balance,
            total_treasury_fees: (escrowed.total_treasury_fees + treasury) as Balance,
            ..escrowed
        }) && escrowed.total_miner_payouts + miner <= u128::MAX && escrowed.total_validator_fees
            + validator <= u128::MAX && escrowed.total_treasury_fees + treasury <= u128::MAX,
    ensures
        paid_out(settled) - paid_out(before) == settled.total_inference_escrowed
            - before.total_inference_escrowed,
        settled.total_inference_refunded == before.total_inference_refunded,
{
    crate::lemma_pro_rata_pair_bounded(payment as int, validator_fee_bps as int, treasury_fee_bps as int);
}

/// Counts one more pending request assigned to a participant.
pub fn increment_pending_count(count: u32) -> (r: Result<u32, ChainRuleError>)
    ensures
        r == increment_pending_count_spec(count),
{
    match count.checked_add(1) {
        Some(c) => Ok(c),
        None => Err(ChainRuleError::ArithmeticOverflow),
    }
}

/// Counts one pending request fewer for a participant whose counter is stored as `count`
/// (absent when zero); the counter is removed when it reaches zero.
pub fn decrement_pending_count(count: Option<u32>) -> (r: Result<Option<u32>, ChainRuleError>)
    ensures
        r == decrement_pending_count_spec(count),
{
    let c = match count {
        Some(c) => c,
        None => return Err(ChainRuleError::PendingAssignmentUnderflow),
    };
    match c.checked_sub(1) {
        None => Err(ChainRuleError::PendingAssignmentUnderflow),
        Some(0) => Ok(None),
        Some(next) => Ok(Some(next)),
    }
}

/// Finishing a request undoes its assignment: decrementing a counter just incremented from
/// `count` leaves `count` stored again (no entry for zero).
pub proof fn lemma_pending_count_round_trip(count: u32)
    requires
        count < u32::MAX,
    ensures
        ({
            let incremented = (count + 1) as u32;
            &&& increment_pending_count_spec(count) == Ok::<u32, ChainRuleError>(incremented)
            &&& decrement_pending_count_spec(Some(incremented)) == Ok::<Option<u32>, ChainRuleError>(
                if count == 0 {
                    None
                } else {
                    Some(count)
                },
            )
        }),
{
}

/// The outcome of `increment_pending_count`.
pub open spec fn increment_pending_count_spec(count: u32) -> Result<u32, ChainRuleError> {
    if count == u32::MAX {
        Err(ChainRuleError::ArithmeticOverflow)
    } else {
        Ok((count + 1) as u32)
    }
}

/// The outcome of `decrement_pending_count`.
pub open spec fn decrement_pending_count_spec(count: Option<u32>) -> Result<Option<u32>, ChainRuleError> {
    match count {
        None => Err(ChainRuleError::PendingAssignmentUnderflow),
        Some(c) => if c == 0 {
            Err(ChainRuleError::PendingAssignmentUnderflow)
        } else if c == 1 {
            Ok(None)
        } else {
            Ok(Some((c - 1) as u32))
        },
    }
}

/// A fee split is accepted exactly when the two rates together take at most 100%.
pub proof fn lemma_fee_split_accepts_exactly(validator_fee_bps: u16, treasury_fee_bps: u16)
    ensures
        spec_fee_split_error(validator_fee_bps, treasury_fee_bps) is None <==> validator_fee_bps
            + treasury_fee_bps <= 10000,
{
}

/// A payment splits only at rates that take at most 100% together; each fee is then its rate
/// of the payment, rounded down, and the miner receives the rest.
pub proof fn lemma_payment_split_follows_rates(payment: Balance, validator_fee_bps: u16, treasury_fee_bps: u16)
    ensures
        spec_payment_split(payment, validator_fee_bps, treasury_fee_bps) matches Ok((miner, validator, treasury))
            ==> {
            &&& validator_fee_bps + treasury_fee_bps <= 10000
            &&& validator as int == payment as int * validator_fee_bps as int / 10000
            &&& treasury as int == payment as int * treasury_fee_bps as int / 10000
            &&& miner + validator + treasury == payment
        },
        validator_fee_bps + treasury_fee_bps > 10000 ==> spec_payment_split(
            payment,
            validator_fee_bps,
            treasury_fee_bps,
        ) is Err,
        validator_fee_bps + treasury_fee_bps <= 10000 && payment as int * validator_fee_bps as int
            <= u128::MAX && payment as int * treasury_fee_bps as int <= u128::MAX ==> spec_payment_split(
            payment,
            validator_fee_bps,
            treasury_fee_bps,
        ) is Ok,
{
    if validator_fee_bps + treasury_fee_bps <= 10000 {
        crate::lemma_pro_rata_pair_bounded(payment as int, validator_fee_bps as int, treasury_fee_bps as int);
    }
}

/// A proof is fresh exactly when it was submitted no later than the current block and at most
/// `max_age_blocks` before it.
pub proof fn lemma_freshness_window(submitted_at: BlockNumber, current: BlockNumber, max_age_blocks: BlockNumber)
    ensures
        spec_submission_freshness(submitted_at, current, max_age_blocks) is Ok <==> (submitted_at
            <= current && current - max_age_blocks <= submitted_at),
{
}

/// A slash of locked capital is taken only at a rate within the bounds; it burns that rate of
/// the locked amount, rounded down, keeps the rest locked, adds the burn to the running total,
/// and marks slashed exactly the participants it leaves below the minimum that are not exiting.
pub proof fn lemma_slash_follows_rate(
    locked: Balance,
    slash_bps: u16,
    min_slash_bps: u16,
    max_slash_bps: u16,
    min_locked: Balance,
    status: RegistryStatus,
    total_burned: Balance,
)
    ensures
        spec_slash_locked_capital(locked, slash_bps, min_slash_bps, max_slash_bps, min_locked, status, total_burned)
            matches Ok(o) ==> {
            &&& min_slash_bps <= slash_bps <= max_slash_bps
            &&& o.burned as int == locked as int * slash_bps as int / 10000
            &&& o.burned + o.remaining == locked
            &&& o.total_burned == total_burned + o.burned
            &&& o.removed_from_index == (o.remaining < min_locked && !(status is Exiting))
            &&& o.status == if o.remaining < min_locked && !(status is Exiting) {
                RegistryStatus::Slashed
            } else {
                status
            }
        },
        slash_bps < min_slash_bps || slash_bps > max_slash_bps ==> spec_slash_locked_capital(
            locked,
            slash_bps,
            min_slash_bps,
            max_slash_bps,
            min_locked,
            status,
            total_burned,
        ) == Err::<SlashOutcome, ChainRuleError>(ChainRuleError::InvalidSlashPercent),
{
}

/// Closing a request lowers a pending counter by exactly one, dropping it at zero, and fails
/// on a missing or zero counter; opening one raises it by exactly one.
pub proof fn lemma_pending_counts_move_by_one(count: Option<u32>, raw: u32)
    ensures
        decrement_pending_count_spec(count) matches Ok(next) ==> (count matches Some(c) && c > 0
            && match next {
            Some(n) => n + 1 == c,
            None => c == 1,
        }),
        (count is None || count == Some(0u32)) ==> decrement_pending_count_spec(count) is Err,
        increment_pending_count_spec(raw) matches Ok(n) ==> n == raw + 1,
{
}

} // verus!
