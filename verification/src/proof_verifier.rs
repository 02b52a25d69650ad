//! Proof verifiers: the trait that settlement consults, a shape-only verifier and a
//! deterministic verifier for local protocol runs.
use vstd::prelude::*;

use crate::is_zero_commitment;

use crate::{
    commitments_equal, Balance, Commitment, InferenceProofSubmission, InferenceRecord,
    ProtocolError, SubnetPolicy, VerificationOutcome,
};

verus! {

/// Abstract proof verifier used by runtime adapters and tests.
pub trait ProofVerifier {
    /// The verdict this verifier gives for a submission under a policy.
    spec fn spec_verify(&self, submission: InferenceProofSubmission, policy: SubnetPolicy) -> Result<
        VerificationOutcome,
        ProtocolError,
    >;

    /// Verifies a submission against a subnet policy.
    fn verify(&self, submission: &InferenceProofSubmission, policy: SubnetPolicy) -> (r: Result<
        VerificationOutcome,
        ProtocolError,
    >)
        ensures
            r == self.spec_verify(*submission, policy),
    ;
}

/// The verdict of a shape-only check: valid exactly when the shape is.
pub open spec fn shape_verdict(submission: InferenceProofSubmission, policy: SubnetPolicy) -> Result<
    VerificationOutcome,
    ProtocolError,
> {
    match submission.shape_error(policy) {
        Some(e) => Err(e),
        None => Ok(VerificationOutcome::Valid),
    }
}

/// Verifier that accepts any submission matching policy shape constraints.
#[derive(Clone, Copy, Debug, Default, PartialEq, Eq)]
pub struct ShapeVerifier;

impl ProofVerifier for ShapeVerifier {
    open spec fn spec_verify(&self, submission: InferenceProofSubmission, policy: SubnetPolicy) -> Result<
        VerificationOutcome,
        ProtocolError,
    > {
        shape_verdict(submission, policy)
    }

    fn verify(&self, submission: &InferenceProofSubmission, policy: SubnetPolicy) -> (r: Result<
        VerificationOutcome,
        ProtocolError,
    >) {
        match submission.validate_shape(policy) {
            Err(e) => Err(e),
            Ok(_) => Ok(VerificationOutcome::Valid),
        }
    }
}

/// Verifier that fails closed: it reports a verifier error for every submission, as a
/// production runtime does until a concrete zkVM verifier is wired in.
#[derive(Clone, Copy, Debug, Default, PartialEq, Eq)]
pub struct FailClosedProofVerifier;

impl ProofVerifier for FailClosedProofVerifier {
    open spec fn spec_verify(&self, submission: InferenceProofSubmission, policy: SubnetPolicy) -> Result<
        VerificationOutcome,
        ProtocolError,
    > {
        Ok(VerificationOutcome::Error)
    }

    fn verify(&self, submission: &InferenceProofSubmission, policy: SubnetPolicy) -> (r: Result<
        VerificationOutcome,
        ProtocolError,
    >) {
        Ok(VerificationOutcome::Error)
    }
}

/// Deterministic verifier for local protocol tests.
#[derive(Clone, Copy, Debug, PartialEq, Eq)]
pub struct MockVerifier {
    pub expected_proof_commitment: Option<Commitment>,
    pub forced_invalid_slash_bps: Option<u16>,
}

impl MockVerifier {
    /// A verifier that accepts every well-shaped submission.
    pub fn accepting() -> (r: Self)
        ensures
            r.expected_proof_commitment is None,
            r.forced_invalid_slash_bps is None,
    {
        MockVerifier { expected_proof_commitment: None, forced_invalid_slash_bps: None }
    }

    /// A verifier that accepts only submissions carrying `proof_commitment`.
    pub fn expecting(proof_commitment: Commitment) -> (r: Self)
        ensures
            r.expected_proof_commitment == Some(proof_commitment),
            r.forced_invalid_slash_bps is None,
    {
        MockVerifier {
            expected_proof_commitment: Some(proof_commitment),
            forced_invalid_slash_bps: None,
        }
    }

    /// A verifier that rejects every well-shaped submission with `slash_bps`.
    pub fn rejecting(slash_bps: u16) -> (r: Self)
        ensures
            r.expected_proof_commitment is None,
            r.forced_invalid_slash_bps == Some(slash_bps),
    {
        MockVerifier { expected_proof_commitment: None, forced_invalid_slash_bps: Some(slash_bps) }
    }
}

impl ProofVerifier for MockVerifier {
    open spec fn spec_verify(&self, submission: InferenceProofSubmission, policy: SubnetPolicy) -> Result<
        VerificationOutcome,
        ProtocolError,
    > {
        match submission.shape_error(policy) {
            Some(e) => Err(e),
            None => match self.forced_invalid_slash_bps {
                Some(slash_bps) => Ok(VerificationOutcome::Invalid { slash_bps }),
                None => match self.expected_proof_commitment {
                    Some(expected) => if expected != submission.proof_commitment {
                        Ok(
                            VerificationOutcome::Invalid {
                                slash_bps: policy.miner_bond.min_invalid_proof_slash_bps,
                            },
                        )
                    } else {
                        Ok(VerificationOutcome::Valid)
                    },
                    None => Ok(VerificationOutcome::Valid),
                },
            },
        }
    }

    fn verify(&self, submission: &InferenceProofSubmission, policy: SubnetPolicy) -> (r: Result<
        VerificationOutcome,
        ProtocolError,
    >) {
        match submission.validate_shape(policy) {
            Err(e) => {
                return Err(e);
            },
            Ok(_) => {},
        }
        match self.forced_invalid_slash_bps {
            Some(slash_bps) => {
                return Ok(VerificationOutcome::Invalid { slash_bps });
            },
            None => {},
        }
        match self.expected_proof_commitment {
            Some(expected) => {
                if !commitments_equal(&expected, &submission.proof_commitment) {
                    return Ok(
                        VerificationOutcome::Invalid {
                            slash_bps: policy.miner_bond.min_invalid_proof_slash_bps,
                        },
                    );
                }
            },
            None => {},
        }
        Ok(VerificationOutcome::Valid)
    }
}

/// Result of processing a proof against a verifier.
#[derive(Clone, Copy, Debug, PartialEq, Eq)]
pub enum ProofProcessing {
    Accepted(InferenceRecord),
    Rejected { miner_slashed: Balance },
}

/// The shape-only verdict is valid exactly for well-shaped submissions: commitments set, the
/// policy's proof system, proof size and latency within its bounds.
pub proof fn lemma_shape_verdict_accepts_exactly(submission: InferenceProofSubmission, policy: SubnetPolicy)
    ensures
        shape_verdict(submission, policy) == Ok::<VerificationOutcome, ProtocolError>(
            VerificationOutcome::Valid,
        ) <==> {
            &&& !is_zero_commitment(submission.input_commitment)
            &&& !is_zero_commitment(submission.output_commitment)
            &&& !is_zero_commitment(submission.model_commitment)
            &&& submission.proof_system == policy.proof_system
            &&& policy.min_proof_size_bytes <= submission.proof_size_bytes
            &&& submission.proof_size_bytes <= policy.max_proof_size_bytes
            &&& submission.verification_latency_ms <= policy.max_verification_latency_ms
        },
        shape_verdict(submission, policy) is Ok ==> shape_verdict(submission, policy) == Ok::<
            VerificationOutcome,
            ProtocolError,
        >(VerificationOutcome::Valid),
{
    crate::lemma_shape_check_accepts_exactly(submission, policy);
}

/// The fail-closed verifier never lets a proof settle or be slashed: its verdict is always an
/// error. The mock verifier passes only well-shaped submissions, rejects them at its forced
/// rate when it has one, rejects a submission carrying another proof commitment than it
/// expects at the policy's smallest slash rate, and otherwise finds them valid.
pub proof fn lemma_verifier_verdicts(
    mock: MockVerifier,
    submission: InferenceProofSubmission,
    policy: SubnetPolicy,
)
    ensures
        FailClosedProofVerifier.spec_verify(submission, policy) == Ok::<VerificationOutcome, ProtocolError>(
            VerificationOutcome::Error,
        ),
        mock.spec_verify(submission, policy) is Ok ==> submission.shape_error(policy) is None,
        submission.shape_error(policy) is None ==> match mock.forced_invalid_slash_bps {
            Some(bps) => mock.spec_verify(submission, policy) == Ok::<VerificationOutcome, ProtocolError>(
                VerificationOutcome::Invalid { slash_bps: bps },
            ),
            None => match mock.expected_proof_commitment {
                Some(expected) => mock.spec_verify(submission, policy) == if expected
                    == submission.proof_commitment {
                    Ok::<VerificationOutcome, ProtocolError>(VerificationOutcome::Valid)
                } else {
                    Ok(
                        VerificationOutcome::Invalid {
                            slash_bps: policy.miner_bond.min_invalid_proof_slash_bps,
                        },
                    )
                },
                None => mock.spec_verify(submission, policy) == Ok::<VerificationOutcome, ProtocolError>(
                    VerificationOutcome::Valid,
                ),
            },
        },
{
}

} // verus!
