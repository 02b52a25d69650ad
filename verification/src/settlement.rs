//! How requests close and capital is slashed on the chain registry. A submission that passes
//! validation and the verifier's verdict on it either settle the request's escrowed payment
//! and record the proof, or reject the request, slashing the miner's bond and the validator's
//! stake and refunding the user; a challenge that proves a proof invalid slashes the miner
//! alone. A request no proof closed can be cancelled by its user or expired by anyone once its
//! delay has passed, and the root can slash an idle participant.
//! Commitments the chain computes by hashing are handed in by the caller, and the balance
//! movements (held-payment transfers, burns, refunds) are returned for the caller to carry
//! out.
use vstd::prelude::*;

use crate::chain::{
    count_of, spec_transition_request_status, transition_request_status, ChainAccounting,
    ChainRequestStatusCounts, InferenceRequestStatus,
};
use crate::registry::{
    index_remove, index_removed, lemma_tally_insert, lookup, pending_of, tally, ChainInferenceRequest,
    ChainMiner, ChainProofRecord, ChainRegistry, ChainValidator, ProofEnvelopeWitness,
    SubmissionBounds,
};
use crate::rules::{
    decrement_pending_count, decrement_pending_count_spec, payment_split, slash_locked_capital,
    spec_fee_split_error, spec_payment_split, spec_slash_locked_capital, validate_fee_split,
    ChainRuleError, SlashOutcome,
};
use crate::{
    commitments_equal, Balance, BlockNumber, Commitment, InferenceProofSubmission, MinerId,
    RegistryStatus, RequestId, ValidatorId, VerificationOutcome,
};

verus! {

broadcast use {vstd::std_specs::btree::group_btree_axioms, vstd::laws_cmp::group_laws_cmp};

/// The two commitments an account may be stored under: the domain-separated commitment of
/// its role, and the plain account commitment of older records.
#[derive(Clone, Copy, Debug, PartialEq, Eq)]
pub struct AccountCommitments {
    pub role: Commitment,
    pub account: Commitment,
}

/// A stored commitment names the account.
pub open spec fn account_matches(stored: Commitment, account: AccountCommitments) -> bool {
    stored == account.role || stored == account.account
}

pub(crate) fn check_account(stored: &Commitment, account: &AccountCommitments) -> (r: bool)
    ensures
        r == account_matches(*stored, *account),
{
    commitments_equal(stored, &account.role) || commitments_equal(stored, &account.account)
}

/// The payment terms a request was opened with.
#[derive(Clone, Copy, Debug, PartialEq, Eq)]
pub struct InferenceRequestTerms {
    pub payment: Balance,
    pub validator_fee_bps: u16,
    pub treasury_fee_bps: u16,
}

/// A participant's capital commitment under its present status, and under `Slashed`.
#[derive(Clone, Copy, Debug, PartialEq, Eq)]
pub struct CapitalCommitments {
    pub current: Commitment,
    pub slashed: Commitment,
}

/// The capital commitment recorded for a participant left with `status`.
pub open spec fn capital_commitment_for(c: CapitalCommitments, status: RegistryStatus) -> Commitment {
    if status == RegistryStatus::Slashed {
        c.slashed
    } else {
        c.current
    }
}

fn pick_capital_commitment(c: &CapitalCommitments, status: RegistryStatus) -> (r: Commitment)
    ensures
        r == capital_commitment_for(*c, status),
{
    match status {
        RegistryStatus::Slashed => c.slashed,
        _ => c.current,
    }
}

/// What the caller of a proof submission computed by hashing: the request-route commitment of
/// the submission and its blinding, what it read from the proof envelope and the transcript
/// commitment the envelope's journal must carry, the audit commitment of the proof, the commitments of the
/// request's user and of the two operators, the terms the request was opened with and their
/// commitment under the caller's blinding, and the capital commitments of the two participants.
#[derive(Clone, Copy, Debug, PartialEq, Eq)]
pub struct SettlementWitness {
    pub assignment_commitment: Commitment,
    pub envelope: ProofEnvelopeWitness,
    pub audit_commitment: Commitment,
    pub request_user: AccountCommitments,
    pub miner_operator: AccountCommitments,
    pub validator_operator: AccountCommitments,
    pub terms: InferenceRequestTerms,
    pub terms_commitment: Commitment,
    pub miner_bond_commitments: CapitalCommitments,
    pub validator_stake_commitments: CapitalCommitments,
}

/// The runtime's bounds on submissions and on the slash an invalid proof draws.
#[derive(Clone, Copy, Debug, PartialEq, Eq)]
pub struct SettlementRules {
    pub bounds: SubmissionBounds,
    pub min_invalid_proof_slash_bps: u16,
    pub max_invalid_proof_slash_bps: u16,
    pub min_miner_bond: Balance,
    pub min_validator_stake: Balance,
}

/// How a submitted proof was settled, with the balance movements it calls for.
#[derive(Clone, Copy, Debug, PartialEq, Eq)]
pub enum ProofSettlement {
    /// The held payment goes to the miner operator, the validator operator and the treasury.
    Settled { miner_payment: Balance, validator_fee: Balance, treasury_fee: Balance },
    /// The held payment is released to the user; the miner's bond and the validator's stake
    /// are slashed.
    Rejected { refund: Balance, miner_slash: SlashOutcome, validator_slash: SlashOutcome },
    /// A challenge proved the proof invalid: the held payment is released to the user and the
    /// miner's bond is slashed.
    Challenged { refund: Balance, miner_slash: SlashOutcome },
}

/// Everything a submission changes, computed before anything is written.
#[derive(Clone, Copy, Debug, PartialEq, Eq)]
pub struct SettlementPlan {
    pub settlement: ProofSettlement,
    pub request: ChainInferenceRequest,
    pub miner: ChainMiner,
    pub validator: ChainValidator,
    pub miner_pending: Option<u32>,
    pub validator_pending: Option<u32>,
    pub status_counts: ChainRequestStatusCounts,
    pub totals: ChainAccounting,
}

/// Why the witnessed terms do not close `request` on behalf of `user`: the user must own it,
/// the payment must be positive with a valid fee split, and the terms must be those the
/// request committed to.
pub open spec fn terms_error(
    request: ChainInferenceRequest,
    user: AccountCommitments,
    terms: InferenceRequestTerms,
    terms_commitment: Commitment,
) -> Option<ChainRuleError> {
    if !account_matches(request.user_commitment, user) {
        Some(ChainRuleError::NotRequestOwner)
    } else if terms.payment == 0 {
        Some(ChainRuleError::InvalidPayment)
    } else if spec_fee_split_error(terms.validator_fee_bps, terms.treasury_fee_bps) is Some {
        spec_fee_split_error(terms.validator_fee_bps, terms.treasury_fee_bps)
    } else if request.terms_commitment != terms_commitment {
        Some(ChainRuleError::RequestMismatch)
    } else {
        None
    }
}

fn check_terms(
    request: &ChainInferenceRequest,
    user: &AccountCommitments,
    terms: &InferenceRequestTerms,
    terms_commitment: &Commitment,
) -> (r: Result<(), ChainRuleError>)
    ensures
        r == match terms_error(*request, *user, *terms, *terms_commitment) {
            Some(e) => Err(e),
            None => Ok(()),
        },
{
    if !check_account(&request.user_commitment, user) {
        return Err(ChainRuleError::NotRequestOwner);
    }
    if terms.payment == 0 {
        return Err(ChainRuleError::InvalidPayment);
    }
    match validate_fee_split(terms.validator_fee_bps, terms.treasury_fee_bps) {
        Ok(()) => {},
        Err(e) => return Err(e),
    }
    if !commitments_equal(&request.terms_commitment, terms_commitment) {
        return Err(ChainRuleError::RequestMismatch);
    }
    Ok(())
}

/// `m` with the pending counter of `id` set to `count` (removed when `None`).
pub open spec fn with_pending(m: Map<u64, u32>, id: u64, count: Option<u32>) -> Map<u64, u32> {
    match count {
        Some(c) => m.insert(id, c),
        None => m.remove(id),
    }
}

impl ChainRegistry {
    /// Closing a pending request as `to`: both participants count one pending request fewer
    /// and the request moves from `Pending` to `to` in the status counters.
    pub open spec fn spec_close_request(
        a: ChainRegistry,
        miner_id: MinerId,
        validator_id: ValidatorId,
        to: InferenceRequestStatus,
    ) -> Result<(Option<u32>, Option<u32>, ChainRequestStatusCounts), ChainRuleError> {
        match decrement_pending_count_spec(lookup(a.pending_miner_requests@, miner_id)) {
            Err(e) => Err(e),
            Ok(mp) => match decrement_pending_count_spec(
                lookup(a.pending_validator_requests@, validator_id),
            ) {
                Err(e) => Err(e),
                Ok(vp) => match spec_transition_request_status(
                    a.status_counts,
                    InferenceRequestStatus::Pending,
                    to,
                ) {
                    Err(e) => Err(e),
                    Ok(c) => Ok((mp, vp, c)),
                },
            },
        }
    }

    fn close_request(
        &self,
        miner_id: MinerId,
        validator_id: ValidatorId,
        to: InferenceRequestStatus,
    ) -> (r: Result<(Option<u32>, Option<u32>, ChainRequestStatusCounts), ChainRuleError>)
        ensures
            r == Self::spec_close_request(*self, miner_id, validator_id, to),
    {
        let miner_count: Option<u32> = match self.pending_miner_requests.get(&miner_id) {
            Some(c) => Some(*c),
            None => None,
        };
        let mp = match decrement_pending_count(miner_count) {
            Ok(c) => c,
            Err(e) => return Err(e),
        };
        let validator_count: Option<u32> = match self.pending_validator_requests.get(&validator_id) {
            Some(c) => Some(*c),
            None => None,
        };
        let vp = match decrement_pending_count(validator_count) {
            Ok(c) => c,
            Err(e) => return Err(e),
        };
        match transition_request_status(self.status_counts, InferenceRequestStatus::Pending, to) {
            Ok(c) => Ok((mp, vp, c)),
            Err(e) => Err(e),
        }
    }
}

impl ChainRegistry {
    /// The plan for settling a valid proof of `s`: the terms must settle the request, the
    /// payment must split and the payout totals must have room for its parts.
    pub open spec fn spec_plan_valid(
        a: ChainRegistry,
        s: InferenceProofSubmission,
        w: SettlementWitness,
    ) -> Result<SettlementPlan, ChainRuleError> {
        let request = a.requests@[s.request_id];
        match terms_error(request, w.request_user, w.terms, w.terms_commitment) {
            Some(e) => Err(e),
            None => match spec_payment_split(
                w.terms.payment,
                w.terms.validator_fee_bps,
                w.terms.treasury_fee_bps,
            ) {
                Err(e) => Err(e),
                Ok((miner_payment, validator_fee, treasury_fee)) => if a.totals.total_miner_payouts
                    + miner_payment > u128::MAX || a.totals.total_validator_fees + validator_fee
                    > u128::MAX || a.totals.total_treasury_fees + treasury_fee > u128::MAX {
                    Err(ChainRuleError::ArithmeticOverflow)
                } else {
                    match Self::spec_close_request(
                        a,
                        s.miner_id,
                        s.validator_id,
                        InferenceRequestStatus::Settled,
                    ) {
                        Err(e) => Err(e),
                        Ok((mp, vp, counts)) => Ok(
                            SettlementPlan {
                                settlement: ProofSettlement::Settled {
                                    miner_payment,
                                    validator_fee,
                                    treasury_fee,
                                },
                                request: ChainInferenceRequest {
                                    status: InferenceRequestStatus::Settled,
                                    ..request
                                },
                                miner: a.miners@[s.miner_id],
                                validator: a.validators@[s.validator_id],
                                miner_pending: mp,
                                validator_pending: vp,
                                status_counts: counts,
                                totals: ChainAccounting {
                                    total_miner_payouts: (a.totals.total_miner_payouts
                                        + miner_payment) as Balance,
                                    total_validator_fees: (a.totals.total_validator_fees
                                        + validator_fee) as Balance,
                                    total_treasury_fees: (a.totals.total_treasury_fees
                                        + treasury_fee) as Balance,
                                    ..a.totals
                                },
                            },
                        ),
                    }
                },
            },
        }
    }

    /// The plan for rejecting an invalid proof of `s` that draws `slash_bps`: the terms must
    /// settle the request and the refund total must have room for its payment; the rate must
    /// lie within the runtime's bounds; the miner's bond, then the validator's stake, are
    /// slashed by it, a participant left below its minimum that is not exiting being marked
    /// slashed and leaving the routing index.
    pub open spec fn spec_plan_invalid(
        a: ChainRegistry,
        s: InferenceProofSubmission,
        w: SettlementWitness,
        slash_bps: u16,
        rules: SettlementRules,
    ) -> Result<SettlementPlan, ChainRuleError> {
        let request = a.requests@[s.request_id];
        let miner = a.miners@[s.miner_id];
        let validator = a.validators@[s.validator_id];
        match terms_error(request, w.request_user, w.terms, w.terms_commitment) {
            Some(e) => Err(e),
            None => if a.totals.total_inference_refunded + w.terms.payment > u128::MAX {
                Err(ChainRuleError::ArithmeticOverflow)
            } else if slash_bps < rules.min_invalid_proof_slash_bps || slash_bps
                > rules.max_invalid_proof_slash_bps {
                Err(ChainRuleError::InvalidSlashPercent)
            } else if !a.miner_bonds@.contains_key(s.miner_id) {
                Err(ChainRuleError::MissingCapitalRecord)
            } else {
                match spec_slash_locked_capital(
                    a.miner_bonds@[s.miner_id],
                    slash_bps,
                    rules.min_invalid_proof_slash_bps,
                    rules.max_invalid_proof_slash_bps,
                    rules.min_miner_bond,
                    miner.status,
                    a.total_burned,
                ) {
                    Err(e) => Err(e),
                    Ok(miner_slash) => if !a.validator_stakes@.contains_key(s.validator_id) {
                        Err(ChainRuleError::MissingCapitalRecord)
                    } else {
                        match spec_slash_locked_capital(
                            a.validator_stakes@[s.validator_id],
                            slash_bps,
                            rules.min_invalid_proof_slash_bps,
                            rules.max_invalid_proof_slash_bps,
                            rules.min_validator_stake,
                            validator.status,
                            miner_slash.total_burned,
                        ) {
                            Err(e) => Err(e),
                            Ok(validator_slash) => match Self::spec_close_request(
                                a,
                                s.miner_id,
                                s.validator_id,
                                InferenceRequestStatus::Rejected,
                            ) {
                                Err(e) => Err(e),
                                Ok((mp, vp, counts)) => Ok(
                                    SettlementPlan {
                                        settlement: ProofSettlement::Rejected {
                                            refund: w.terms.payment,
                                            miner_slash,
                                            validator_slash,
                                        },
                                        request: ChainInferenceRequest {
                                            status: InferenceRequestStatus::Rejected,
                                            ..request
                                        },
                                        miner: ChainMiner {
                                            status: miner_slash.status,
                                            bond_commitment: capital_commitment_for(
                                                w.miner_bond_commitments,
                                                miner_slash.status,
                                            ),
                                            ..miner
                                        },
                                        validator: ChainValidator {
                                            status: validator_slash.status,
                                            stake_commitment: capital_commitment_for(
                                                w.validator_stake_commitments,
                                                validator_slash.status,
                                            ),
                                            ..validator
                                        },
                                        miner_pending: mp,
                                        validator_pending: vp,
                                        status_counts: counts,
                                        totals: ChainAccounting {
                                            total_inference_refunded: (a.totals.total_inference_refunded
                                                + w.terms.payment) as Balance,
                                            ..a.totals
                                        },
                                    },
                                ),
                            },
                        }
                    },
                }
            },
        }
    }

    /// The plan for a proof submitted at block `now` with the verifier's `verdict`: the
    /// submission must pass validation against its request under the witnessed route, the
    /// miner operator and the validator operator must be the participants' own, and the
    /// verifier must have reached a verdict.
    pub open spec fn spec_plan_settlement(
        a: ChainRegistry,
        s: InferenceProofSubmission,
        w: SettlementWitness,
        verdict: VerificationOutcome,
        now: BlockNumber,
        rules: SettlementRules,
    ) -> Result<SettlementPlan, ChainRuleError> {
        match Self::spec_validate_submission(a, s, w.assignment_commitment, w.envelope, now, rules.bounds) {
            Err(e) => Err(e),
            Ok(_) => if !account_matches(a.miners@[s.miner_id].operator_commitment, w.miner_operator) {
                Err(ChainRuleError::NotOperator)
            } else if !account_matches(
                a.validators@[s.validator_id].operator_commitment,
                w.validator_operator,
            ) {
                Err(ChainRuleError::NotValidatorOperator)
            } else {
                match verdict {
                    VerificationOutcome::Error => Err(ChainRuleError::VerifierError),
                    VerificationOutcome::Valid => Self::spec_plan_valid(a, s, w),
                    VerificationOutcome::Invalid { slash_bps } => Self::spec_plan_invalid(
                        a,
                        s,
                        w,
                        slash_bps,
                        rules,
                    ),
                }
            },
        }
    }
}

impl ChainRegistry {
    fn plan_valid(&self, s: &InferenceProofSubmission, w: &SettlementWitness, request: ChainInferenceRequest, miner: ChainMiner, validator: ChainValidator) -> (r: Result<SettlementPlan, ChainRuleError>)
        requires
            self.requests@.contains_key(s.request_id),
            self.requests@[s.request_id] == request,
            self.miners@.contains_key(s.miner_id),
            self.miners@[s.miner_id] == miner,
            self.validators@.contains_key(s.validator_id),
            self.validators@[s.validator_id] == validator,
        ensures
            r == Self::spec_plan_valid(*self, *s, *w),
    {
        match check_terms(&request, &w.request_user, &w.terms, &w.terms_commitment) {
            Ok(()) => {},
            Err(e) => return Err(e),
        }
        let (miner_payment, validator_fee, treasury_fee) = match payment_split(
            w.terms.payment,
            w.terms.validator_fee_bps,
            w.terms.treasury_fee_bps,
        ) {
            Ok(parts) => parts,
            Err(e) => return Err(e),
        };
        if self.totals.total_miner_payouts > u128::MAX - miner_payment
            || self.totals.total_validator_fees > u128::MAX - validator_fee
            || self.totals.total_treasury_fees > u128::MAX - treasury_fee {
            return Err(ChainRuleError::ArithmeticOverflow);
        }
        let (mp, vp, counts) = match self.close_request(
            s.miner_id,
            s.validator_id,
            InferenceRequestStatus::Settled,
        ) {
            Ok(closed) => closed,
            Err(e) => return Err(e),
        };
        Ok(
            SettlementPlan {
                settlement: ProofSettlement::Settled { miner_payment, validator_fee, treasury_fee },
                request: ChainInferenceRequest { status: InferenceRequestStatus::Settled, ..request },
                miner,
                validator,
                miner_pending: mp,
                validator_pending: vp,
                status_counts: counts,
                totals: ChainAccounting {
                    total_miner_payouts: self.totals.total_miner_payouts + miner_payment,
                    total_validator_fees: self.totals.total_validator_fees + validator_fee,
                    total_treasury_fees: self.totals.total_treasury_fees + treasury_fee,
                    ..self.totals
                },
            },
        )
    }

    fn plan_invalid(
        &self,
        s: &InferenceProofSubmission,
        w: &SettlementWitness,
        slash_bps: u16,
        rules: &SettlementRules,
        request: ChainInferenceRequest,
        miner: ChainMiner,
        validator: ChainValidator,
    ) -> (r: Result<SettlementPlan, ChainRuleError>)
        requires
            self.requests@.contains_key(s.request_id),
            self.requests@[s.request_id] == request,
            self.miners@.contains_key(s.miner_id),
            self.miners@[s.miner_id] == miner,
            self.validators@.contains_key(s.validator_id),
            self.validators@[s.validator_id] == validator,
        ensures
            r == Self::spec_plan_invalid(*self, *s, *w, slash_bps, *rules),
    {
        match check_terms(&request, &w.request_user, &w.terms, &w.terms_commitment) {
            Ok(()) => {},
            Err(e) => return Err(e),
        }
        if self.totals.total_inference_refunded > u128::MAX - w.terms.payment {
            return Err(ChainRuleError::ArithmeticOverflow);
        }
        if slash_bps < rules.min_invalid_proof_slash_bps || slash_bps
            > rules.max_invalid_proof_slash_bps {
            return Err(ChainRuleError::InvalidSlashPercent);
        }
        let bond: Balance = match self.miner_bonds.get(&s.miner_id) {
            Some(b) => *b,
            None => return Err(ChainRuleError::MissingCapitalRecord),
        };
        let miner_slash = match slash_locked_capital(
            bond,
            slash_bps,
            rules.min_invalid_proof_slash_bps,
            rules.max_invalid_proof_slash_bps,
            rules.min_miner_bond,
            miner.status,
            self.total_burned,
        ) {
            Ok(o) => o,
            Err(e) => return Err(e),
        };
        let stake: Balance = match self.validator_stakes.get(&s.validator_id) {
            Some(b) => *b,
            None => return Err(ChainRuleError::MissingCapitalRecord),
        };
        let validator_slash = match slash_locked_capital(
            stake,
            slash_bps,
            rules.min_invalid_proof_slash_bps,
            rules.max_invalid_proof_slash_bps,
            rules.min_validator_stake,
            validator.status,
            miner_slash.total_burned,
        ) {
            Ok(o) => o,
            Err(e) => return Err(e),
        };
        let (mp, vp, counts) = match self.close_request(
            s.miner_id,
            s.validator_id,
            InferenceRequestStatus::Rejected,
        ) {
            Ok(closed) => closed,
            Err(e) => return Err(e),
        };
        Ok(
            SettlementPlan {
                settlement: ProofSettlement::Rejected {
                    refund: w.terms.payment,
                    miner_slash,
                    validator_slash,
                },
                request: ChainInferenceRequest { status: InferenceRequestStatus::Rejected, ..request },
                miner: ChainMiner {
                    status: miner_slash.status,
                    bond_commitment: pick_capital_commitment(
                        &w.miner_bond_commitments,
                        miner_slash.status,
                    ),
                    ..miner
                },
                validator: ChainValidator {
                    status: validator_slash.status,
                    stake_commitment: pick_capital_commitment(
                        &w.validator_stake_commitments,
                        validator_slash.status,
                    ),
                    ..validator
                },
                miner_pending: mp,
                validator_pending: vp,
                status_counts: counts,
                totals: ChainAccounting {
                    total_inference_refunded: self.totals.total_inference_refunded
                        + w.terms.payment,
                    ..self.totals
                },
            },
        )
    }

    /// Computes what a proof submission changes without writing anything.
    pub fn plan_settlement(
        &self,
        submission: &InferenceProofSubmission,
        witness: &SettlementWitness,
        verdict: VerificationOutcome,
        now: BlockNumber,
        rules: &SettlementRules,
    ) -> (r: Result<SettlementPlan, ChainRuleError>)
        ensures
            r == Self::spec_plan_settlement(*self, *submission, *witness, verdict, now, *rules),
    {
        match self.validate_submission_for_request(
            submission,
            &witness.assignment_commitment,
            &witness.envelope,
            now,
            rules.bounds,
        ) {
            Ok(_) => {},
            Err(e) => return Err(e),
        }
        let request = match self.requests.get(&submission.request_id) {
            Some(q) => *q,
            None => return Err(ChainRuleError::UnknownRequest),
        };
        let miner = match self.miners.get(&submission.miner_id) {
            Some(m) => *m,
            None => return Err(ChainRuleError::UnknownMiner),
        };
        let validator = match self.validators.get(&submission.validator_id) {
            Some(v) => *v,
            None => return Err(ChainRuleError::UnknownValidator),
        };
        if !check_account(&miner.operator_commitment, &witness.miner_operator) {
            return Err(ChainRuleError::NotOperator);
        }
        if !check_account(&validator.operator_commitment, &witness.validator_operator) {
            return Err(ChainRuleError::NotValidatorOperator);
        }
        match verdict {
            VerificationOutcome::Error => Err(ChainRuleError::VerifierError),
            VerificationOutcome::Valid => self.plan_valid(submission, witness, request, miner, validator),
            VerificationOutcome::Invalid { slash_bps } => self.plan_invalid(
                submission,
                witness,
                slash_bps,
                rules,
                request,
                miner,
                validator,
            ),
        }
    }
}

impl ChainRegistry {
    /// How applying plan `p` for submission `s` takes `a` to `b`: the request is closed as the
    /// plan says, a settled proof is recorded, and a rejection leaves the slashed capital,
    /// statuses and routing indexes.
    pub open spec fn plan_applied(
        a: ChainRegistry,
        b: ChainRegistry,
        s: InferenceProofSubmission,
        w: SettlementWitness,
        p: SettlementPlan,
    ) -> bool {
        &&& Self::same_counts(a, b)
        &&& b.requests@ == a.requests@.insert(s.request_id, p.request)
        &&& b.next_request_id == a.next_request_id
        &&& b.pending_miner_requests@ == with_pending(a.pending_miner_requests@, s.miner_id, p.miner_pending)
        &&& b.pending_validator_requests@ == with_pending(
            a.pending_validator_requests@,
            s.validator_id,
            p.validator_pending,
        )
        &&& b.status_counts == p.status_counts
        &&& b.totals == p.totals
        &&& b.subnets@ == a.subnets@
        &&& b.miner_identities@ == a.miner_identities@
        &&& b.validator_identities@ == a.validator_identities@
        &&& b.health == a.health
        &&& match p.settlement {
            ProofSettlement::Settled { .. } => {
                &&& b.proof_records@ == a.proof_records@.insert(
                    s.request_id,
                    ChainProofRecord {
                        request_id: s.request_id,
                        subnet_id: s.subnet_id,
                        assignment_commitment: p.request.assignment_commitment,
                        audit_commitment: w.audit_commitment,
                        proof_system: s.proof_system,
                    },
                )
                &&& b.miner_bonds@ == a.miner_bonds@
                &&& b.validator_stakes@ == a.validator_stakes@
                &&& b.total_burned == a.total_burned
                &&& b.miners@ == a.miners@
                &&& b.validators@ == a.validators@
                &&& b.active_miners@ == a.active_miners@
                &&& b.active_validators@ == a.active_validators@
            },
            ProofSettlement::Rejected { miner_slash, validator_slash, .. } => {
                &&& b.proof_records@ == a.proof_records@
                &&& b.miner_bonds@ == a.miner_bonds@.insert(s.miner_id, miner_slash.remaining)
                &&& b.validator_stakes@ == a.validator_stakes@.insert(
                    s.validator_id,
                    validator_slash.remaining,
                )
                &&& b.total_burned == validator_slash.total_burned
                &&& b.miners@ == a.miners@.insert(s.miner_id, p.miner)
                &&& b.validators@ == a.validators@.insert(s.validator_id, p.validator)
                &&& if miner_slash.removed_from_index {
                    index_removed(a.active_miners@, b.active_miners@, p.miner.subnet_id, s.miner_id)
                } else {
                    b.active_miners@ == a.active_miners@
                }
                &&& if validator_slash.removed_from_index {
                    index_removed(
                        a.active_validators@,
                        b.active_validators@,
                        p.validator.subnet_id,
                        s.validator_id,
                    )
                } else {
                    b.active_validators@ == a.active_validators@
                }
            },
            ProofSettlement::Challenged { miner_slash, .. } => {
                &&& b.proof_records@ == a.proof_records@
                &&& b.miner_bonds@ == a.miner_bonds@.insert(s.miner_id, miner_slash.remaining)
                &&& b.validator_stakes@ == a.validator_stakes@
                &&& b.total_burned == miner_slash.total_burned
                &&& b.miners@ == a.miners@.insert(s.miner_id, p.miner)
                &&& b.validators@ == a.validators@
                &&& if miner_slash.removed_from_index {
                    index_removed(a.active_miners@, b.active_miners@, p.miner.subnet_id, s.miner_id)
                } else {
                    b.active_miners@ == a.active_miners@
                }
                &&& b.active_validators@ == a.active_validators@
            },
        }
    }

    /// What a plan for submission `s` may assume of the registry it is applied to: the request
    /// is pending and the plan closes it, with the pending counters and status counters its
    /// closing gives, and leaves both participants in a state that may hold assignments.
    pub open spec fn plan_fits(a: ChainRegistry, s: InferenceProofSubmission, p: SettlementPlan) -> bool {
        &&& a.requests@.contains_key(s.request_id)
        &&& a.requests@[s.request_id].status == InferenceRequestStatus::Pending
        &&& p.request.status != InferenceRequestStatus::Pending
        &&& Self::spec_close_request(a, s.miner_id, s.validator_id, p.request.status) == Ok::<
            (Option<u32>, Option<u32>, ChainRequestStatusCounts),
            ChainRuleError,
        >((p.miner_pending, p.validator_pending, p.status_counts))
        &&& a.miners@.contains_key(s.miner_id)
        &&& a.validators@.contains_key(s.validator_id)
        &&& crate::registry::may_hold_assignments(p.miner.status)
        &&& crate::registry::may_hold_assignments(p.validator.status)
    }

    /// What `submit_proof` does, taking `a` to `b` with result `r`: on a refused submission
    /// nothing changes; otherwise its plan is applied.
    pub open spec fn submit_proof_post(
        a: ChainRegistry,
        b: ChainRegistry,
        s: InferenceProofSubmission,
        w: SettlementWitness,
        verdict: VerificationOutcome,
        now: BlockNumber,
        rules: SettlementRules,
        r: Result<ProofSettlement, ChainRuleError>,
    ) -> bool {
        match Self::spec_plan_settlement(a, s, w, verdict, now, rules) {
            Err(e) => r == Err::<ProofSettlement, ChainRuleError>(e) && b == a,
            Ok(p) => r == Ok::<ProofSettlement, ChainRuleError>(p.settlement) && Self::plan_applied(
                a,
                b,
                s,
                w,
                p,
            ),
        }
    }

    fn apply_plan(&mut self, submission: &InferenceProofSubmission, witness: &SettlementWitness, plan: SettlementPlan)
        requires
            old(self).wf(),
            Self::plan_fits(*old(self), *submission, plan),
        ensures
            final(self).wf(),
            Self::plan_applied(*old(self), *final(self), *submission, *witness, plan),
    {
        let ghost before = *self;
        let rid = submission.request_id;
        proof {
            assert forall|which: InferenceRequestStatus|
                #[trigger] count_of(plan.status_counts, which) == tally(
                    before.requests@.insert(rid, plan.request),
                    which,
                ) by {
                lemma_tally_insert(before.requests@, rid, plan.request, which);
                assert(count_of(before.status_counts, which) == tally(before.requests@, which));
            }
        }
        self.requests.insert(rid, plan.request);
        match plan.miner_pending {
            Some(c) => {
                self.pending_miner_requests.insert(submission.miner_id, c);
            },
            None => {
                self.pending_miner_requests.remove(&submission.miner_id);
            },
        }
        match plan.validator_pending {
            Some(c) => {
                self.pending_validator_requests.insert(submission.validator_id, c);
            },
            None => {
                self.pending_validator_requests.remove(&submission.validator_id);
            },
        }
        self.status_counts = plan.status_counts;
        self.totals = plan.totals;
        match plan.settlement {
            ProofSettlement::Settled { .. } => {
                self.proof_records.insert(
                    rid,
                    ChainProofRecord {
                        request_id: rid,
                        subnet_id: submission.subnet_id,
                        assignment_commitment: plan.request.assignment_commitment,
                        audit_commitment: witness.audit_commitment,
                        proof_system: submission.proof_system,
                    },
                );
            },
            ProofSettlement::Rejected { miner_slash, validator_slash, .. } => {
                self.miner_bonds.insert(submission.miner_id, miner_slash.remaining);
                self.validator_stakes.insert(submission.validator_id, validator_slash.remaining);
                self.total_burned = validator_slash.total_burned;
                self.miners.insert(submission.miner_id, plan.miner);
                self.validators.insert(submission.validator_id, plan.validator);
                if miner_slash.removed_from_index {
                    index_remove(&mut self.active_miners, plan.miner.subnet_id, submission.miner_id);
                }
                if validator_slash.removed_from_index {
                    index_remove(
                        &mut self.active_validators,
                        plan.validator.subnet_id,
                        submission.validator_id,
                    );
                }
            },
            ProofSettlement::Challenged { miner_slash, .. } => {
                self.miner_bonds.insert(submission.miner_id, miner_slash.remaining);
                self.total_burned = miner_slash.total_burned;
                self.miners.insert(submission.miner_id, plan.miner);
                if miner_slash.removed_from_index {
                    index_remove(&mut self.active_miners, plan.miner.subnet_id, submission.miner_id);
                }
            },
        }
        proof {
            assert forall|id: u64| #[trigger] self.requests@.contains_key(id) implies id
                < self.next_request_id by {
                if id != rid {
                    assert(before.requests@.contains_key(id));
                }
            }
        }
    }

    /// Submits a proof of an escrowed request with the verifier's verdict on it. A valid proof
    /// settles the request: its payment splits into the miner payment, validator fee and
    /// treasury fee, which the caller transfers from the user's hold, and the proof is
    /// recorded. An invalid one rejects the request: the miner's bond and the validator's stake
    /// are slashed, and the payment is refunded to the user. A refused submission changes
    /// nothing.
    pub fn submit_proof(
        &mut self,
        submission: &InferenceProofSubmission,
        witness: &SettlementWitness,
        verdict: VerificationOutcome,
        now: BlockNumber,
        rules: &SettlementRules,
    ) -> (r: Result<ProofSettlement, ChainRuleError>)
        requires
            old(self).wf(),
        ensures
            final(self).wf(),
            Self::submit_proof_post(*old(self), *final(self), *submission, *witness, verdict, now, *rules, r),
            r matches Ok(ProofSettlement::Settled { miner_payment, validator_fee, treasury_fee })
                ==> miner_payment + validator_fee + treasury_fee == witness.terms.payment,
            r matches Ok(ProofSettlement::Rejected { refund, miner_slash, validator_slash }) ==> {
                &&& refund == witness.terms.payment
                &&& miner_slash.burned + miner_slash.remaining == old(self).miner_bonds@[submission.miner_id]
                &&& validator_slash.burned + validator_slash.remaining
                    == old(self).validator_stakes@[submission.validator_id]
                &&& final(self).total_burned == old(self).total_burned + miner_slash.burned
                    + validator_slash.burned
            },
    {
        let plan = match self.plan_settlement(submission, witness, verdict, now, rules) {
            Ok(p) => p,
            Err(e) => return Err(e),
        };
        proof {
            if plan.settlement is Settled {
                crate::lemma_pro_rata_pair_bounded(
                    witness.terms.payment as int,
                    witness.terms.validator_fee_bps as int,
                    witness.terms.treasury_fee_bps as int,
                );
            }
        }
        self.apply_plan(submission, witness, plan);
        Ok(plan.settlement)
    }
}

impl ChainRegistry {
    /// A request is closed at most once: once a proof of it has settled or rejected it, every
    /// later submission for the same request is refused, whatever its verdict.
    pub proof fn lemma_request_closes_once(
        a: ChainRegistry,
        b: ChainRegistry,
        s: InferenceProofSubmission,
        w: SettlementWitness,
        verdict: VerificationOutcome,
        now: BlockNumber,
        rules: SettlementRules,
        r: Result<ProofSettlement, ChainRuleError>,
        later: InferenceProofSubmission,
        later_witness: SettlementWitness,
        later_verdict: VerificationOutcome,
        later_now: BlockNumber,
        later_rules: SettlementRules,
    )
        requires
            Self::submit_proof_post(a, b, s, w, verdict, now, rules, r),
            r is Ok,
            later.request_id == s.request_id,
        ensures
            Self::spec_plan_settlement(b, later, later_witness, later_verdict, later_now, later_rules) is Err,
    {
        let p = Self::spec_plan_settlement(a, s, w, verdict, now, rules)->Ok_0;
        assert(Self::spec_validate_submission(a, s, w.assignment_commitment, w.envelope, now, rules.bounds) is Ok);
        assert(!a.proof_records@.contains_key(s.request_id));
        assert(b.requests@[s.request_id] == p.request);
        if p.settlement is Settled {
            assert(b.proof_records@.contains_key(s.request_id));
        } else {
            assert(!b.proof_records@.contains_key(s.request_id));
            assert(p.request.status == InferenceRequestStatus::Rejected);
        }
    }
}

/// What the caller of a cancellation or expiry computed by hashing: the request-route
/// commitment of the named participants under its blinding, the timing commitment of the
/// request's creation block under its blinding, the commitments of the request's user, and the
/// terms with their commitment.
#[derive(Clone, Copy, Debug, PartialEq, Eq)]
pub struct ClosureWitness {
    pub assignment_commitment: Commitment,
    pub timing_commitment: Commitment,
    pub created_at: BlockNumber,
    pub request_user: AccountCommitments,
    pub terms: InferenceRequestTerms,
    pub terms_commitment: Commitment,
}

impl ChainRegistry {
    /// Why closing request `request_id` unproved, as `Cancelled` or `Expired`, fails at block
    /// `now`: the request must exist and belong to the witnessed user, the route, timing and
    /// terms must be those it committed to, it must still be pending, `cancel_delay_blocks`
    /// must have passed since its creation, and the refund total must have room for it.
    pub open spec fn closure_error(
        a: ChainRegistry,
        request_id: RequestId,
        w: ClosureWitness,
        now: BlockNumber,
        cancel_delay_blocks: BlockNumber,
    ) -> Option<ChainRuleError> {
        if !a.requests@.contains_key(request_id) {
            Some(ChainRuleError::UnknownRequest)
        } else {
            let request = a.requests@[request_id];
            if !account_matches(request.user_commitment, w.request_user) {
                Some(ChainRuleError::NotRequestOwner)
            } else if request.assignment_commitment != w.assignment_commitment {
                Some(ChainRuleError::AssignmentMismatch)
            } else if request.timing_commitment != w.timing_commitment {
                Some(ChainRuleError::RequestMismatch)
            } else if terms_error(request, w.request_user, w.terms, w.terms_commitment) is Some {
                terms_error(request, w.request_user, w.terms, w.terms_commitment)
            } else if request.status != InferenceRequestStatus::Pending {
                Some(ChainRuleError::RequestAlreadySettled)
            } else if w.created_at + cancel_delay_blocks > u64::MAX {
                Some(ChainRuleError::ArithmeticOverflow)
            } else if now < w.created_at + cancel_delay_blocks {
                Some(ChainRuleError::RequestCancelUnavailable)
            } else if a.totals.total_inference_refunded + w.terms.payment > u128::MAX {
                Some(ChainRuleError::ArithmeticOverflow)
            } else {
                None
            }
        }
    }

    /// What closing a request unproved as `to` does, taking `a` to `b` with result `r`: on
    /// failure nothing changes; otherwise the request takes status `to`, both participants
    /// count one pending request fewer, the counters move it from `Pending` to `to`, and its
    /// payment is refunded.
    pub open spec fn closure_post(
        a: ChainRegistry,
        b: ChainRegistry,
        request_id: RequestId,
        miner_id: MinerId,
        validator_id: ValidatorId,
        w: ClosureWitness,
        now: BlockNumber,
        cancel_delay_blocks: BlockNumber,
        to: InferenceRequestStatus,
        r: Result<Balance, ChainRuleError>,
    ) -> bool {
        match Self::closure_error(a, request_id, w, now, cancel_delay_blocks) {
            Some(e) => r == Err::<Balance, ChainRuleError>(e) && b == a,
            None => match Self::spec_close_request(a, miner_id, validator_id, to) {
                Err(e) => r == Err::<Balance, ChainRuleError>(e) && b == a,
                Ok((mp, vp, counts)) => {
                    &&& r == Ok::<Balance, ChainRuleError>(w.terms.payment)
                    &&& b.requests@ == a.requests@.insert(
                        request_id,
                        ChainInferenceRequest { status: to, ..a.requests@[request_id] },
                    )
                    &&& b.pending_miner_requests@ == with_pending(a.pending_miner_requests@, miner_id, mp)
                    &&& b.pending_validator_requests@ == with_pending(
                        a.pending_validator_requests@,
                        validator_id,
                        vp,
                    )
                    &&& b.status_counts == counts
                    &&& b.totals == ChainAccounting {
                        total_inference_refunded: (a.totals.total_inference_refunded
                            + w.terms.payment) as Balance,
                        ..a.totals
                    }
                    &&& Self::same_registries(a, b)
                    &&& b.proof_records@ == a.proof_records@
                    &&& b.next_request_id == a.next_request_id
                },
            },
        }
    }

    fn close_unproved(
        &mut self,
        request_id: RequestId,
        miner_id: MinerId,
        validator_id: ValidatorId,
        w: &ClosureWitness,
        now: BlockNumber,
        cancel_delay_blocks: BlockNumber,
        to: InferenceRequestStatus,
    ) -> (r: Result<Balance, ChainRuleError>)
        requires
            old(self).wf(),
            to != InferenceRequestStatus::Pending,
        ensures
            final(self).wf(),
            Self::closure_post(
                *old(self),
                *final(self),
                request_id,
                miner_id,
                validator_id,
                *w,
                now,
                cancel_delay_blocks,
                to,
                r,
            ),
    {
        let request = match self.requests.get(&request_id) {
            Some(q) => *q,
            None => return Err(ChainRuleError::UnknownRequest),
        };
        if !check_account(&request.user_commitment, &w.request_user) {
            return Err(ChainRuleError::NotRequestOwner);
        }
        if !commitments_equal(&request.assignment_commitment, &w.assignment_commitment) {
            return Err(ChainRuleError::AssignmentMismatch);
        }
        if !commitments_equal(&request.timing_commitment, &w.timing_commitment) {
            return Err(ChainRuleError::RequestMismatch);
        }
        match check_terms(&request, &w.request_user, &w.terms, &w.terms_commitment) {
            Ok(()) => {},
            Err(e) => return Err(e),
        }
        if request.status != InferenceRequestStatus::Pending {
            return Err(ChainRuleError::RequestAlreadySettled);
        }
        let available_at = match w.created_at.checked_add(cancel_delay_blocks) {
            Some(t) => t,
            None => return Err(ChainRuleError::ArithmeticOverflow),
        };
        if now < available_at {
            return Err(ChainRuleError::RequestCancelUnavailable);
        }
        if self.totals.total_inference_refunded > u128::MAX - w.terms.payment {
            return Err(ChainRuleError::ArithmeticOverflow);
        }
        let (mp, vp, counts) = match self.close_request(miner_id, validator_id, to) {
            Ok(closed) => closed,
            Err(e) => return Err(e),
        };
        let ghost before = *self;
        let closed = ChainInferenceRequest { status: to, ..request };
        proof {
            assert forall|which: InferenceRequestStatus|
                #[trigger] count_of(counts, which) == tally(before.requests@.insert(request_id, closed), which) by {
                lemma_tally_insert(before.requests@, request_id, closed, which);
                assert(count_of(before.status_counts, which) == tally(before.requests@, which));
            }
        }
        self.requests.insert(request_id, closed);
        match mp {
            Some(c) => {
                self.pending_miner_requests.insert(miner_id, c);
            },
            None => {
                self.pending_miner_requests.remove(&miner_id);
            },
        }
        match vp {
            Some(c) => {
                self.pending_validator_requests.insert(validator_id, c);
            },
            None => {
                self.pending_validator_requests.remove(&validator_id);
            },
        }
        self.status_counts = counts;
        self.totals.total_inference_refunded = self.totals.total_inference_refunded + w.terms.payment;
        proof {
            assert forall|id: u64| #[trigger] self.requests@.contains_key(id) implies id
                < self.next_request_id by {
                if id != request_id {
                    assert(before.requests@.contains_key(id));
                }
            }
        }
        Ok(w.terms.payment)
    }

    /// Cancels a pending request on behalf of its user once `cancel_delay_blocks` have passed
    /// since its creation, returning the payment the caller releases from the user's hold.
    pub fn cancel_inference(
        &mut self,
        request_id: RequestId,
        miner_id: MinerId,
        validator_id: ValidatorId,
        witness: &ClosureWitness,
        now: BlockNumber,
        cancel_delay_blocks: BlockNumber,
    ) -> (r: Result<Balance, ChainRuleError>)
        requires
            old(self).wf(),
        ensures
            final(self).wf(),
            Self::closure_post(
                *old(self),
                *final(self),
                request_id,
                miner_id,
                validator_id,
                *witness,
                now,
                cancel_delay_blocks,
                InferenceRequestStatus::Cancelled,
                r,
            ),
    {
        self.close_unproved(
            request_id,
            miner_id,
            validator_id,
            witness,
            now,
            cancel_delay_blocks,
            InferenceRequestStatus::Cancelled,
        )
    }

    /// Expires a pending request that no proof settled, on behalf of any keeper, once
    /// `cancel_delay_blocks` have passed since its creation, returning the payment the caller
    /// releases from the user's hold.
    pub fn expire_inference(
        &mut self,
        request_id: RequestId,
        miner_id: MinerId,
        validator_id: ValidatorId,
        witness: &ClosureWitness,
        now: BlockNumber,
        cancel_delay_blocks: BlockNumber,
    ) -> (r: Result<Balance, ChainRuleError>)
        requires
            old(self).wf(),
        ensures
            final(self).wf(),
            Self::closure_post(
                *old(self),
                *final(self),
                request_id,
                miner_id,
                validator_id,
                *witness,
                now,
                cancel_delay_blocks,
                InferenceRequestStatus::Expired,
                r,
            ),
    {
        self.close_unproved(
            request_id,
            miner_id,
            validator_id,
            witness,
            now,
            cancel_delay_blocks,
            InferenceRequestStatus::Expired,
        )
    }
}

impl ChainRegistry {
    /// Everything but the miners, their bonds, the burned total and the miner routing
    /// indexes agrees between `a` and `b`.
    pub open spec fn same_but_miner_capital(a: ChainRegistry, b: ChainRegistry) -> bool {
        &&& Self::same_counts(a, b)
        &&& b.validator_stakes@ == a.validator_stakes@
        &&& b.subnets@ == a.subnets@
        &&& b.validators@ == a.validators@
        &&& b.miner_identities@ == a.miner_identities@
        &&& b.validator_identities@ == a.validator_identities@
        &&& b.active_validators@ == a.active_validators@
        &&& b.pending_miner_requests@ == a.pending_miner_requests@
        &&& b.pending_validator_requests@ == a.pending_validator_requests@
        &&& b.proof_records@ == a.proof_records@
        &&& b.totals == a.totals
        &&& b.health == a.health
        &&& b.requests@ == a.requests@
        &&& b.status_counts == a.status_counts
        &&& b.next_request_id == a.next_request_id
    }

    /// Everything but the validators, their stakes, the burned total and the validator routing
    /// indexes agrees between `a` and `b`.
    pub open spec fn same_but_validator_capital(a: ChainRegistry, b: ChainRegistry) -> bool {
        &&& Self::same_counts(a, b)
        &&& b.miner_bonds@ == a.miner_bonds@
        &&& b.subnets@ == a.subnets@
        &&& b.miners@ == a.miners@
        &&& b.miner_identities@ == a.miner_identities@
        &&& b.validator_identities@ == a.validator_identities@
        &&& b.active_miners@ == a.active_miners@
        &&& b.pending_miner_requests@ == a.pending_miner_requests@
        &&& b.pending_validator_requests@ == a.pending_validator_requests@
        &&& b.proof_records@ == a.proof_records@
        &&& b.totals == a.totals
        &&& b.health == a.health
        &&& b.requests@ == a.requests@
        &&& b.status_counts == a.status_counts
        &&& b.next_request_id == a.next_request_id
    }

    /// The outcome of the root's slash of `slash_bps` of miner `miner_id`'s bond, held by
    /// `operator`, and the miner's record after it: the rate must lie within the runtime's
    /// bounds, the miner may hold no pending assignment, and its bond record must exist.
    pub open spec fn spec_root_slash_miner(
        a: ChainRegistry,
        miner_id: MinerId,
        operator: AccountCommitments,
        slash_bps: u16,
        rules: SettlementRules,
        commitments: CapitalCommitments,
    ) -> Result<(SlashOutcome, ChainMiner), ChainRuleError> {
        if slash_bps < rules.min_invalid_proof_slash_bps || slash_bps
            > rules.max_invalid_proof_slash_bps {
            Err(ChainRuleError::InvalidSlashPercent)
        } else if crate::registry::pending_of(a.pending_miner_requests@, miner_id) != 0 {
            Err(ChainRuleError::PendingAssignedRequests)
        } else if !a.miners@.contains_key(miner_id) {
            Err(ChainRuleError::UnknownMiner)
        } else if !account_matches(a.miners@[miner_id].operator_commitment, operator) {
            Err(ChainRuleError::NotOperator)
        } else if !a.miner_bonds@.contains_key(miner_id) {
            Err(ChainRuleError::MissingCapitalRecord)
        } else {
            let miner = a.miners@[miner_id];
            match spec_slash_locked_capital(
                a.miner_bonds@[miner_id],
                slash_bps,
                rules.min_invalid_proof_slash_bps,
                rules.max_invalid_proof_slash_bps,
                rules.min_miner_bond,
                miner.status,
                a.total_burned,
            ) {
                Err(e) => Err(e),
                Ok(o) => Ok(
                    (
                        o,
                        ChainMiner {
                            status: o.status,
                            bond_commitment: capital_commitment_for(commitments, o.status),
                            ..miner
                        },
                    ),
                ),
            }
        }
    }

    /// The root slashes `slash_bps` of a miner's bond: the amount is burned, a miner left
    /// below the minimum bond that is not exiting is marked slashed and leaves its subnet's
    /// routing index, and its bond commitment is recomputed; a refused slash changes nothing.
    pub fn slash_miner(
        &mut self,
        miner_id: MinerId,
        operator: &AccountCommitments,
        slash_bps: u16,
        rules: &SettlementRules,
        commitments: &CapitalCommitments,
    ) -> (r: Result<SlashOutcome, ChainRuleError>)
        requires
            old(self).wf(),
        ensures
            final(self).wf(),
            match Self::spec_root_slash_miner(*old(self), miner_id, *operator, slash_bps, *rules, *commitments) {
                Err(e) => r == Err::<SlashOutcome, ChainRuleError>(e) && *final(self) == *old(self),
                Ok((o, m)) => {
                    &&& r == Ok::<SlashOutcome, ChainRuleError>(o)
                    &&& o.burned + o.remaining == old(self).miner_bonds@[miner_id]
                    &&& final(self).total_burned == old(self).total_burned + o.burned
                    &&& final(self).miner_bonds@ == old(self).miner_bonds@.insert(miner_id, o.remaining)
                    &&& final(self).miners@ == old(self).miners@.insert(miner_id, m)
                    &&& final(self).total_burned == o.total_burned
                    &&& if o.removed_from_index {
                        index_removed(old(self).active_miners@, final(self).active_miners@, m.subnet_id, miner_id)
                    } else {
                        final(self).active_miners@ == old(self).active_miners@
                    }
                    &&& Self::same_but_miner_capital(*old(self), *final(self))
                },
            },
    {
        if slash_bps < rules.min_invalid_proof_slash_bps || slash_bps
            > rules.max_invalid_proof_slash_bps {
            return Err(ChainRuleError::InvalidSlashPercent);
        }
        if self.pending_miner_requests.contains_key(&miner_id) {
            let pending: u32 = *self.pending_miner_requests.get(&miner_id).unwrap();
            if pending != 0 {
                return Err(ChainRuleError::PendingAssignedRequests);
            }
        }
        let miner = match self.miners.get(&miner_id) {
            Some(m) => *m,
            None => return Err(ChainRuleError::UnknownMiner),
        };
        if !check_account(&miner.operator_commitment, operator) {
            return Err(ChainRuleError::NotOperator);
        }
        let bond: Balance = match self.miner_bonds.get(&miner_id) {
            Some(b) => *b,
            None => return Err(ChainRuleError::MissingCapitalRecord),
        };
        let o = match slash_locked_capital(
            bond,
            slash_bps,
            rules.min_invalid_proof_slash_bps,
            rules.max_invalid_proof_slash_bps,
            rules.min_miner_bond,
            miner.status,
            self.total_burned,
        ) {
            Ok(o) => o,
            Err(e) => return Err(e),
        };
        let slashed = ChainMiner {
            status: o.status,
            bond_commitment: pick_capital_commitment(commitments, o.status),
            ..miner
        };
        self.miner_bonds.insert(miner_id, o.remaining);
        self.miners.insert(miner_id, slashed);
        self.total_burned = o.total_burned;
        if o.removed_from_index {
            index_remove(&mut self.active_miners, slashed.subnet_id, miner_id);
        }
        Ok(o)
    }

    /// The outcome of the root's slash of `slash_bps` of validator `validator_id`'s stake,
    /// held by `operator`, and the validator's record after it: the rate must lie within the
    /// runtime's bounds, the validator may hold no pending assignment, and its stake record
    /// must exist.
    pub open spec fn spec_root_slash_validator(
        a: ChainRegistry,
        validator_id: ValidatorId,
        operator: AccountCommitments,
        slash_bps: u16,
        rules: SettlementRules,
        commitments: CapitalCommitments,
    ) -> Result<(SlashOutcome, ChainValidator), ChainRuleError> {
        if slash_bps < rules.min_invalid_proof_slash_bps || slash_bps
            > rules.max_invalid_proof_slash_bps {
            Err(ChainRuleError::InvalidSlashPercent)
        } else if crate::registry::pending_of(a.pending_validator_requests@, validator_id) != 0 {
            Err(ChainRuleError::PendingAssignedRequests)
        } else if !a.validators@.contains_key(validator_id) {
            Err(ChainRuleError::UnknownValidator)
        } else if !account_matches(a.validators@[validator_id].operator_commitment, operator) {
            Err(ChainRuleError::NotOperator)
        } else if !a.validator_stakes@.contains_key(validator_id) {
            Err(ChainRuleError::MissingCapitalRecord)
        } else {
            let validator = a.validators@[validator_id];
            match spec_slash_locked_capital(
                a.validator_stakes@[validator_id],
                slash_bps,
                rules.min_invalid_proof_slash_bps,
                rules.max_invalid_proof_slash_bps,
                rules.min_validator_stake,
                validator.status,
                a.total_burned,
            ) {
                Err(e) => Err(e),
                Ok(o) => Ok(
                    (
                        o,
                        ChainValidator {
                            status: o.status,
                            stake_commitment: capital_commitment_for(commitments, o.status),
                            ..validator
                        },
                    ),
                ),
            }
        }
    }

    /// The root slashes `slash_bps` of a validator's stake: the amount is burned, a validator
    /// left below the minimum stake that is not exiting is marked slashed and leaves its
    /// subnet's routing index, and its stake commitment is recomputed; a refused slash changes
    /// nothing.
    pub fn slash_validator(
        &mut self,
        validator_id: ValidatorId,
        operator: &AccountCommitments,
        slash_bps: u16,
        rules: &SettlementRules,
        commitments: &CapitalCommitments,
    ) -> (r: Result<SlashOutcome, ChainRuleError>)
        requires
            old(self).wf(),
        ensures
            final(self).wf(),
            match Self::spec_root_slash_validator(*old(self), validator_id, *operator, slash_bps, *rules, *commitments) {
                Err(e) => r == Err::<SlashOutcome, ChainRuleError>(e) && *final(self) == *old(self),
                Ok((o, v)) => {
                    &&& r == Ok::<SlashOutcome, ChainRuleError>(o)
                    &&& o.burned + o.remaining == old(self).validator_stakes@[validator_id]
                    &&& final(self).total_burned == old(self).total_burned + o.burned
                    &&& final(self).validator_stakes@ == old(self).validator_stakes@.insert(validator_id, o.remaining)
                    &&& final(self).validators@ == old(self).validators@.insert(validator_id, v)
                    &&& final(self).total_burned == o.total_burned
                    &&& if o.removed_from_index {
                        index_removed(
                            old(self).active_validators@,
                            final(self).active_validators@,
                            v.subnet_id,
                            validator_id,
                        )
                    } else {
                        final(self).active_validators@ == old(self).active_validators@
                    }
                    &&& Self::same_but_validator_capital(*old(self), *final(self))
                },
            },
    {
        if slash_bps < rules.min_invalid_proof_slash_bps || slash_bps
            > rules.max_invalid_proof_slash_bps {
            return Err(ChainRuleError::InvalidSlashPercent);
        }
        if self.pending_validator_requests.contains_key(&validator_id) {
            let pending: u32 = *self.pending_validator_requests.get(&validator_id).unwrap();
            if pending != 0 {
                return Err(ChainRuleError::PendingAssignedRequests);
            }
        }
        let validator = match self.validators.get(&validator_id) {
            Some(v) => *v,
            None => return Err(ChainRuleError::UnknownValidator),
        };
        if !check_account(&validator.operator_commitment, operator) {
            return Err(ChainRuleError::NotOperator);
        }
        let stake: Balance = match self.validator_stakes.get(&validator_id) {
            Some(b) => *b,
            None => return Err(ChainRuleError::MissingCapitalRecord),
        };
        let o = match slash_locked_capital(
            stake,
            slash_bps,
            rules.min_invalid_proof_slash_bps,
            rules.max_invalid_proof_slash_bps,
            rules.min_validator_stake,
            validator.status,
            self.total_burned,
        ) {
            Ok(o) => o,
            Err(e) => return Err(e),
        };
        let slashed = ChainValidator {
            status: o.status,
            stake_commitment: pick_capital_commitment(commitments, o.status),
            ..validator
        };
        self.validator_stakes.insert(validator_id, o.remaining);
        self.validators.insert(validator_id, slashed);
        self.total_burned = o.total_burned;
        if o.removed_from_index {
            index_remove(&mut self.active_validators, slashed.subnet_id, validator_id);
        }
        Ok(o)
    }
}

impl ChainRegistry {
    /// The plan for a challenge that proved the proof of `s` invalid, drawing `slash_bps`: as
    /// for a rejected proof, but only the miner's bond is slashed.
    pub open spec fn spec_plan_challenged(
        a: ChainRegistry,
        s: InferenceProofSubmission,
        w: SettlementWitness,
        slash_bps: u16,
        rules: SettlementRules,
    ) -> Result<SettlementPlan, ChainRuleError> {
        let request = a.requests@[s.request_id];
        let miner = a.miners@[s.miner_id];
        match terms_error(request, w.request_user, w.terms, w.terms_commitment) {
            Some(e) => Err(e),
            None => if a.totals.total_inference_refunded + w.terms.payment > u128::MAX {
                Err(ChainRuleError::ArithmeticOverflow)
            } else if slash_bps < rules.min_invalid_proof_slash_bps || slash_bps
                > rules.max_invalid_proof_slash_bps {
                Err(ChainRuleError::InvalidSlashPercent)
            } else if !a.miner_bonds@.contains_key(s.miner_id) {
                Err(ChainRuleError::MissingCapitalRecord)
            } else {
                match spec_slash_locked_capital(
                    a.miner_bonds@[s.miner_id],
                    slash_bps,
                    rules.min_invalid_proof_slash_bps,
                    rules.max_invalid_proof_slash_bps,
                    rules.min_miner_bond,
                    miner.status,
                    a.total_burned,
                ) {
                    Err(e) => Err(e),
                    Ok(miner_slash) => match Self::spec_close_request(
                        a,
                        s.miner_id,
                        s.validator_id,
                        InferenceRequestStatus::Rejected,
                    ) {
                        Err(e) => Err(e),
                        Ok((mp, vp, counts)) => Ok(
                            SettlementPlan {
                                settlement: ProofSettlement::Challenged {
                                    refund: w.terms.payment,
                                    miner_slash,
                                },
                                request: ChainInferenceRequest {
                                    status: InferenceRequestStatus::Rejected,
                                    ..request
                                },
                                miner: ChainMiner {
                                    status: miner_slash.status,
                                    bond_commitment: capital_commitment_for(
                                        w.miner_bond_commitments,
                                        miner_slash.status,
                                    ),
                                    ..miner
                                },
                                validator: a.validators@[s.validator_id],
                                miner_pending: mp,
                                validator_pending: vp,
                                status_counts: counts,
                                totals: ChainAccounting {
                                    total_inference_refunded: (a.totals.total_inference_refunded
                                        + w.terms.payment) as Balance,
                                    ..a.totals
                                },
                            },
                        ),
                    },
                }
            },
        }
    }

    /// The plan for a challenge of the proof `s` at block `now` with the verifier's `verdict`:
    /// the submission must pass validation and the miner operator must be the miner's own; a
    /// proof that verifies cannot be challenged, and the verifier must reach a verdict.
    pub open spec fn spec_plan_challenge(
        a: ChainRegistry,
        s: InferenceProofSubmission,
        w: SettlementWitness,
        verdict: VerificationOutcome,
        now: BlockNumber,
        rules: SettlementRules,
    ) -> Result<SettlementPlan, ChainRuleError> {
        match Self::spec_validate_submission(a, s, w.assignment_commitment, w.envelope, now, rules.bounds) {
            Err(e) => Err(e),
            Ok(_) => if !account_matches(a.miners@[s.miner_id].operator_commitment, w.miner_operator) {
                Err(ChainRuleError::NotOperator)
            } else {
                match verdict {
                    VerificationOutcome::Valid => Err(ChainRuleError::ChallengeProofValid),
                    VerificationOutcome::Error => Err(ChainRuleError::VerifierError),
                    VerificationOutcome::Invalid { slash_bps } => Self::spec_plan_challenged(
                        a,
                        s,
                        w,
                        slash_bps,
                        rules,
                    ),
                }
            },
        }
    }

    fn plan_challenged(
        &self,
        s: &InferenceProofSubmission,
        w: &SettlementWitness,
        slash_bps: u16,
        rules: &SettlementRules,
        request: ChainInferenceRequest,
        miner: ChainMiner,
        validator: ChainValidator,
    ) -> (r: Result<SettlementPlan, ChainRuleError>)
        requires
            self.requests@.contains_key(s.request_id),
            self.requests@[s.request_id] == request,
            self.miners@.contains_key(s.miner_id),
            self.miners@[s.miner_id] == miner,
            self.validators@.contains_key(s.validator_id),
            self.validators@[s.validator_id] == validator,
        ensures
            r == Self::spec_plan_challenged(*self, *s, *w, slash_bps, *rules),
    {
        match check_terms(&request, &w.request_user, &w.terms, &w.terms_commitment) {
            Ok(()) => {},
            Err(e) => return Err(e),
        }
        if self.totals.total_inference_refunded > u128::MAX - w.terms.payment {
            return Err(ChainRuleError::ArithmeticOverflow);
        }
        if slash_bps < rules.min_invalid_proof_slash_bps || slash_bps
            > rules.max_invalid_proof_slash_bps {
            return Err(ChainRuleError::InvalidSlashPercent);
        }
        let bond: Balance = match self.miner_bonds.get(&s.miner_id) {
            Some(b) => *b,
            None => return Err(ChainRuleError::MissingCapitalRecord),
        };
        let miner_slash = match slash_locked_capital(
            bond,
            slash_bps,
            rules.min_invalid_proof_slash_bps,
            rules.max_invalid_proof_slash_bps,
            rules.min_miner_bond,
            miner.status,
            self.total_burned,
        ) {
            Ok(o) => o,
            Err(e) => return Err(e),
        };
        let (mp, vp, counts) = match self.close_request(
            s.miner_id,
            s.validator_id,
            InferenceRequestStatus::Rejected,
        ) {
            Ok(closed) => closed,
            Err(e) => return Err(e),
        };
        Ok(
            SettlementPlan {
                settlement: ProofSettlement::Challenged { refund: w.terms.payment, miner_slash },
                request: ChainInferenceRequest { status: InferenceRequestStatus::Rejected, ..request },
                miner: ChainMiner {
                    status: miner_slash.status,
                    bond_commitment: pick_capital_commitment(
                        &w.miner_bond_commitments,
                        miner_slash.status,
                    ),
                    ..miner
                },
                validator,
                miner_pending: mp,
                validator_pending: vp,
                status_counts: counts,
                totals: ChainAccounting {
                    total_inference_refunded: self.totals.total_inference_refunded
                        + w.terms.payment,
                    ..self.totals
                },
            },
        )
    }

    /// What `challenge_proof` does, taking `a` to `b` with result `r`: on a refused challenge
    /// nothing changes; otherwise its plan is applied.
    pub open spec fn challenge_proof_post(
        a: ChainRegistry,
        b: ChainRegistry,
        s: InferenceProofSubmission,
        w: SettlementWitness,
        verdict: VerificationOutcome,
        now: BlockNumber,
        rules: SettlementRules,
        r: Result<ProofSettlement, ChainRuleError>,
    ) -> bool {
        match Self::spec_plan_challenge(a, s, w, verdict, now, rules) {
            Err(e) => r == Err::<ProofSettlement, ChainRuleError>(e) && b == a,
            Ok(p) => r == Ok::<ProofSettlement, ChainRuleError>(p.settlement) && Self::plan_applied(
                a,
                b,
                s,
                w,
                p,
            ),
        }
    }

    /// Challenges a miner's proof with the verifier's verdict on it, on behalf of anyone: a
    /// proof found invalid rejects its request, slashing the miner's bond (never the
    /// validator's stake) and refunding the user; a refused challenge changes nothing.
    pub fn challenge_proof(
        &mut self,
        submission: &InferenceProofSubmission,
        witness: &SettlementWitness,
        verdict: VerificationOutcome,
        now: BlockNumber,
        rules: &SettlementRules,
    ) -> (r: Result<ProofSettlement, ChainRuleError>)
        requires
            old(self).wf(),
        ensures
            final(self).wf(),
            Self::challenge_proof_post(*old(self), *final(self), *submission, *witness, verdict, now, *rules, r),
            r matches Ok(ProofSettlement::Challenged { refund, miner_slash }) ==> {
                &&& refund == witness.terms.payment
                &&& miner_slash.burned + miner_slash.remaining == old(self).miner_bonds@[submission.miner_id]
                &&& final(self).total_burned == old(self).total_burned + miner_slash.burned
                &&& final(self).validator_stakes@ == old(self).validator_stakes@
            },
    {
        match self.validate_submission_for_request(
            submission,
            &witness.assignment_commitment,
            &witness.envelope,
            now,
            rules.bounds,
        ) {
            Ok(_) => {},
            Err(e) => return Err(e),
        }
        let request = match self.requests.get(&submission.request_id) {
            Some(q) => *q,
            None => return Err(ChainRuleError::UnknownRequest),
        };
        let miner = match self.miners.get(&submission.miner_id) {
            Some(m) => *m,
            None => return Err(ChainRuleError::UnknownMiner),
        };
        let validator = match self.validators.get(&submission.validator_id) {
            Some(v) => *v,
            None => return Err(ChainRuleError::UnknownValidator),
        };
        if !check_account(&miner.operator_commitment, &witness.miner_operator) {
            return Err(ChainRuleError::NotOperator);
        }
        let plan = match verdict {
            VerificationOutcome::Valid => return Err(ChainRuleError::ChallengeProofValid),
            VerificationOutcome::Error => return Err(ChainRuleError::VerifierError),
            VerificationOutcome::Invalid { slash_bps } => match self.plan_challenged(
                submission,
                witness,
                slash_bps,
                rules,
                request,
                miner,
                validator,
            ) {
                Ok(p) => p,
                Err(e) => return Err(e),
            },
        };
        self.apply_plan(submission, witness, plan);
        Ok(plan.settlement)
    }
}

impl ChainRegistry {
    /// A submitted proof takes effect only when the submission passes validation, the named
    /// operators are the participants' own, the request's user and terms are witnessed and its
    /// payment is positive, and the verifier reached a verdict. The request then leaves the
    /// pending state and both participants count one pending request fewer. A valid proof pays
    /// out each fee at its rate of the payment, rounded down, the miner the rest, and is
    /// recorded; an invalid one refunds the payment, burns the verdict's rate (within the
    /// runtime's bounds) of the miner's bond and of the validator's stake, and records nothing.
    pub proof fn lemma_submitted_proof_outcome(
        a: ChainRegistry,
        b: ChainRegistry,
        s: InferenceProofSubmission,
        w: SettlementWitness,
        verdict: VerificationOutcome,
        now: BlockNumber,
        rules: SettlementRules,
        r: Result<ProofSettlement, ChainRuleError>,
    )
        requires
            Self::submit_proof_post(a, b, s, w, verdict, now, rules, r),
            r is Ok,
        ensures
            Self::spec_validate_submission(a, s, w.assignment_commitment, w.envelope, now, rules.bounds) is Ok,
            rules.bounds.min_proof_size_bytes <= s.proof_size_bytes <= rules.bounds.max_proof_size_bytes,
            a.miners@[s.miner_id].status == RegistryStatus::Active,
            a.validators@[s.validator_id].status == RegistryStatus::Active,
            a.miners@[s.miner_id].operator_commitment == w.miner_operator.role
                || a.miners@[s.miner_id].operator_commitment == w.miner_operator.account,
            a.validators@[s.validator_id].operator_commitment == w.validator_operator.role
                || a.validators@[s.validator_id].operator_commitment == w.validator_operator.account,
            a.requests@[s.request_id].user_commitment == w.request_user.role
                || a.requests@[s.request_id].user_commitment == w.request_user.account,
            a.requests@[s.request_id].terms_commitment == w.terms_commitment,
            a.requests@[s.request_id].status == InferenceRequestStatus::Pending,
            w.terms.payment > 0,
            verdict != VerificationOutcome::Error,
            b.requests@[s.request_id].status != InferenceRequestStatus::Pending,
            pending_of(b.pending_miner_requests@, s.miner_id) + 1 == pending_of(
                a.pending_miner_requests@,
                s.miner_id,
            ),
            pending_of(b.pending_validator_requests@, s.validator_id) + 1 == pending_of(
                a.pending_validator_requests@,
                s.validator_id,
            ),
            b.status_counts.pending + 1 == a.status_counts.pending,
            verdict == VerificationOutcome::Valid ==> {
                &&& r matches Ok(ProofSettlement::Settled { miner_payment, validator_fee, treasury_fee })
                &&& ({
                    let (miner_payment, validator_fee, treasury_fee) = match r {
                        Ok(ProofSettlement::Settled { miner_payment, validator_fee, treasury_fee }) => (
                            miner_payment,
                            validator_fee,
                            treasury_fee,
                        ),
                        _ => (0u128, 0u128, 0u128),
                    };
                    &&& validator_fee as int == w.terms.payment as int * w.terms.validator_fee_bps as int
                        / 10000
                    &&& treasury_fee as int == w.terms.payment as int * w.terms.treasury_fee_bps as int
                        / 10000
                    &&& miner_payment + validator_fee + treasury_fee == w.terms.payment
                    &&& b.totals.total_miner_payouts == a.totals.total_miner_payouts + miner_payment
                    &&& b.totals.total_validator_fees == a.totals.total_validator_fees + validator_fee
                    &&& b.totals.total_treasury_fees == a.totals.total_treasury_fees + treasury_fee
                })
                &&& b.requests@[s.request_id].status == InferenceRequestStatus::Settled
                &&& b.proof_records@.contains_key(s.request_id)
                &&& b.total_burned == a.total_burned
                &&& b.miner_bonds@ == a.miner_bonds@
                &&& b.validator_stakes@ == a.validator_stakes@
            },
            verdict matches VerificationOutcome::Invalid { slash_bps } ==> {
                &&& rules.min_invalid_proof_slash_bps <= slash_bps
                &&& slash_bps <= rules.max_invalid_proof_slash_bps
                &&& r matches Ok(ProofSettlement::Rejected { refund, miner_slash, validator_slash })
                &&& ({
                    let (refund, miner_slash, validator_slash) = match r {
                        Ok(ProofSettlement::Rejected { refund, miner_slash, validator_slash }) => (
                            refund,
                            miner_slash,
                            validator_slash,
                        ),
                        _ => (0u128, arbitrary(), arbitrary()),
                    };
                    &&& refund == w.terms.payment
                    &&& miner_slash.burned as int == a.miner_bonds@[s.miner_id] as int * slash_bps as int
                        / 10000
                    &&& validator_slash.burned as int == a.validator_stakes@[s.validator_id] as int
                        * slash_bps as int / 10000
                    &&& b.miner_bonds@[s.miner_id] == a.miner_bonds@[s.miner_id] - miner_slash.burned
                    &&& b.validator_stakes@[s.validator_id] == a.validator_stakes@[s.validator_id]
                        - validator_slash.burned
                    &&& b.total_burned == a.total_burned + miner_slash.burned + validator_slash.burned
                    &&& b.totals.total_inference_refunded == a.totals.total_inference_refunded
                        + w.terms.payment
                })
                &&& b.requests@[s.request_id].status == InferenceRequestStatus::Rejected
                &&& !b.proof_records@.contains_key(s.request_id)
            },
    {
        crate::rules::lemma_payment_split_follows_rates(
            w.terms.payment,
            w.terms.validator_fee_bps,
            w.terms.treasury_fee_bps,
        );
        Self::lemma_accepted_submission_requirements(a, s, w.assignment_commitment, w.envelope, now, rules.bounds);
        let p = Self::spec_plan_settlement(a, s, w, verdict, now, rules)->Ok_0;
        assert(a.requests@.contains_key(s.request_id));
        if let VerificationOutcome::Invalid { slash_bps } = verdict {
            crate::rules::lemma_slash_follows_rate(
                a.miner_bonds@[s.miner_id],
                slash_bps,
                rules.min_invalid_proof_slash_bps,
                rules.max_invalid_proof_slash_bps,
                rules.min_miner_bond,
                a.miners@[s.miner_id].status,
                a.total_burned,
            );
        }
    }
}

impl ChainRegistry {
    /// A challenge succeeds only against a proof the verifier finds invalid: a valid proof
    /// cannot be challenged. A successful challenge passes the same validation as a
    /// submission, names the miner's own operator, refunds the payment, burns the verdict's rate
    /// (within the runtime's bounds) of the miner's bond, and leaves the validator's stake and
    /// status alone.
    pub proof fn lemma_challenge_outcome(
        a: ChainRegistry,
        b: ChainRegistry,
        s: InferenceProofSubmission,
        w: SettlementWitness,
        verdict: VerificationOutcome,
        now: BlockNumber,
        rules: SettlementRules,
        r: Result<ProofSettlement, ChainRuleError>,
    )
        requires
            Self::challenge_proof_post(a, b, s, w, verdict, now, rules, r),
        ensures
            verdict == VerificationOutcome::Valid ==> r is Err && b == a,
            verdict == VerificationOutcome::Error ==> r is Err && b == a,
            r is Ok ==> {
                &&& Self::spec_validate_submission(a, s, w.assignment_commitment, w.envelope, now, rules.bounds)
                    is Ok
                &&& (a.miners@[s.miner_id].operator_commitment == w.miner_operator.role
                    || a.miners@[s.miner_id].operator_commitment == w.miner_operator.account)
                &&& verdict matches VerificationOutcome::Invalid { slash_bps }
                &&& rules.min_invalid_proof_slash_bps <= verdict->slash_bps
                &&& verdict->slash_bps <= rules.max_invalid_proof_slash_bps
                &&& r matches Ok(ProofSettlement::Challenged { refund, miner_slash })
                &&& r->Ok_0->Challenged_refund == w.terms.payment
                &&& r->Ok_0->Challenged_miner_slash.burned as int == a.miner_bonds@[s.miner_id] as int
                    * verdict->slash_bps as int / 10000
                &&& b.total_burned == a.total_burned + r->Ok_0->Challenged_miner_slash.burned
                &&& b.validator_stakes@ == a.validator_stakes@
                &&& b.validators@ == a.validators@
                &&& b.requests@[s.request_id].status == InferenceRequestStatus::Rejected
                &&& !b.proof_records@.contains_key(s.request_id)
                &&& b.totals.total_inference_refunded == a.totals.total_inference_refunded
                    + w.terms.payment
            },
    {
        if r is Ok {
            Self::lemma_accepted_submission_requirements(a, s, w.assignment_commitment, w.envelope, now, rules.bounds);
        }
    }

    /// A request closes unproved only when it is stored and still pending, belongs to the
    /// witnessed user, its route, timing and terms are those it committed to, its payment is
    /// positive, and the delay has passed since its creation; it then takes the closing status,
    /// its payment is refunded and both participants count one pending request fewer.
    pub proof fn lemma_closed_request_requirements(
        a: ChainRegistry,
        b: ChainRegistry,
        request_id: RequestId,
        miner_id: MinerId,
        validator_id: ValidatorId,
        w: ClosureWitness,
        now: BlockNumber,
        cancel_delay_blocks: BlockNumber,
        to: InferenceRequestStatus,
        r: Result<Balance, ChainRuleError>,
    )
        requires
            Self::closure_post(a, b, request_id, miner_id, validator_id, w, now, cancel_delay_blocks, to, r),
            r is Ok,
        ensures
            a.requests@.contains_key(request_id),
            a.requests@[request_id].status == InferenceRequestStatus::Pending,
            a.requests@[request_id].user_commitment == w.request_user.role
                || a.requests@[request_id].user_commitment == w.request_user.account,
            a.requests@[request_id].assignment_commitment == w.assignment_commitment,
            a.requests@[request_id].timing_commitment == w.timing_commitment,
            a.requests@[request_id].terms_commitment == w.terms_commitment,
            w.terms.payment > 0,
            now >= w.created_at + cancel_delay_blocks,
            r == Ok::<Balance, ChainRuleError>(w.terms.payment),
            b.requests@[request_id].status == to,
            b.totals.total_inference_refunded == a.totals.total_inference_refunded + w.terms.payment,
            pending_of(b.pending_miner_requests@, miner_id) + 1 == pending_of(a.pending_miner_requests@, miner_id),
            pending_of(b.pending_validator_requests@, validator_id) + 1 == pending_of(
                a.pending_validator_requests@,
                validator_id,
            ),
            b.proof_records@ == a.proof_records@,
    {
    }

    /// The root slashes a miner only at a rate within the runtime's bounds, when it holds no
    /// pending assignment and the named operator is its own; it burns that rate of the bond,
    /// rounded down.
    pub proof fn lemma_root_slash_requirements(
        a: ChainRegistry,
        miner_id: MinerId,
        validator_id: ValidatorId,
        operator: AccountCommitments,
        slash_bps: u16,
        rules: SettlementRules,
        commitments: CapitalCommitments,
    )
        ensures
            Self::spec_root_slash_miner(a, miner_id, operator, slash_bps, rules, commitments) matches Ok(
                (o, m),
            ) ==> {
                &&& rules.min_invalid_proof_slash_bps <= slash_bps
                &&& slash_bps <= rules.max_invalid_proof_slash_bps
                &&& pending_of(a.pending_miner_requests@, miner_id) == 0
                &&& (a.miners@[miner_id].operator_commitment == operator.role
                    || a.miners@[miner_id].operator_commitment == operator.account)
                &&& o.burned as int == a.miner_bonds@[miner_id] as int * slash_bps as int / 10000
                &&& o.burned + o.remaining == a.miner_bonds@[miner_id]
            },
            Self::spec_root_slash_validator(a, validator_id, operator, slash_bps, rules, commitments)
                matches Ok((o, v)) ==> {
                &&& rules.min_invalid_proof_slash_bps <= slash_bps
                &&& slash_bps <= rules.max_invalid_proof_slash_bps
                &&& pending_of(a.pending_validator_requests@, validator_id) == 0
                &&& (a.validators@[validator_id].operator_commitment == operator.role
                    || a.validators@[validator_id].operator_commitment == operator.account)
                &&& o.burned as int == a.validator_stakes@[validator_id] as int * slash_bps as int
                    / 10000
                &&& o.burned + o.remaining == a.validator_stakes@[validator_id]
            },
    {
    }
}

} // verus!
