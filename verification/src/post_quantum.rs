//! Account-signature policy for the classical to post-quantum migration.
use vstd::prelude::*;

use crate::{is_zero_commitment, commitment_is_zero, Commitment, ProtocolError, SignatureMode};

verus! {

/// Signature algorithm family used by an account or transaction envelope.
#[derive(Clone, Copy, Debug, PartialEq, Eq, Structural)]
pub enum SignatureAlgorithm {
    Ecdsa,
    Sr25519,
    Ed25519,
    Dilithium3,
    Dilithium5,
    Falcon512,
    SphincsPlus,
}

impl SignatureAlgorithm {
    /// Classical (pre-quantum) algorithms.
    pub open spec fn spec_is_classical(self) -> bool {
        self is Ecdsa || self is Sr25519 || self is Ed25519
    }

    /// Post-quantum algorithms.
    pub open spec fn spec_is_post_quantum(self) -> bool {
        self is Dilithium3 || self is Dilithium5 || self is Falcon512 || self is SphincsPlus
    }

    /// The Dilithium family.
    pub open spec fn spec_is_dilithium(self) -> bool {
        self is Dilithium3 || self is Dilithium5
    }

    /// Whether the algorithm is ECDSA, Sr25519 or Ed25519.
    pub fn is_classical(self) -> (r: bool)
        ensures
            r == self.spec_is_classical(),
    {
        match self {
            SignatureAlgorithm::Ecdsa | SignatureAlgorithm::Sr25519 | SignatureAlgorithm::Ed25519 => true,
            _ => false,
        }
    }

    /// Whether the algorithm is Dilithium3, Dilithium5, Falcon512 or SPHINCS+.
    pub fn is_post_quantum(self) -> (r: bool)
        ensures
            r == self.spec_is_post_quantum(),
    {
        match self {
            SignatureAlgorithm::Dilithium3
            | SignatureAlgorithm::Dilithium5
            | SignatureAlgorithm::Falcon512
            | SignatureAlgorithm::SphincsPlus => true,
            _ => false,
        }
    }

    /// Whether the algorithm is Dilithium3 or Dilithium5.
    pub fn is_dilithium(self) -> (r: bool)
        ensures
            r == self.spec_is_dilithium(),
    {
        match self {
            SignatureAlgorithm::Dilithium3 | SignatureAlgorithm::Dilithium5 => true,
            _ => false,
        }
    }
}

/// Commitment to a public key and signature payload.
#[derive(Clone, Copy, Debug, PartialEq, Eq)]
pub struct SignatureCommitment {
    pub algorithm: SignatureAlgorithm,
    pub public_key_commitment: Commitment,
    pub signature_commitment: Commitment,
}

/// Transaction signature bundle used during migration.
#[derive(Clone, Copy, Debug, PartialEq, Eq)]
pub struct SignatureBundle {
    pub classical: Option<SignatureCommitment>,
    pub post_quantum: Option<SignatureCommitment>,
}

/// Enforces the roadmap phase for accepted account signatures.
#[derive(Clone, Copy, Debug, PartialEq, Eq, Structural)]
pub struct SignaturePolicy {
    pub mode: SignatureMode,
}

/// The error for a signature whose public key or signature commitment is missing.
pub open spec fn commitments_error(signature: SignatureCommitment) -> Option<ProtocolError> {
    if is_zero_commitment(signature.public_key_commitment) || is_zero_commitment(
        signature.signature_commitment,
    ) {
        Some(ProtocolError::MissingCommitment)
    } else {
        None
    }
}

/// The error for a signature offered in the classical slot.
pub open spec fn classical_error(signature: SignatureCommitment) -> Option<ProtocolError> {
    if commitments_error(signature) is Some {
        commitments_error(signature)
    } else if !signature.algorithm.spec_is_classical() {
        Some(ProtocolError::UnsupportedSignatureAlgorithm)
    } else {
        None
    }
}

/// The error for a signature offered in the post-quantum slot.
pub open spec fn post_quantum_error(signature: SignatureCommitment) -> Option<ProtocolError> {
    if commitments_error(signature) is Some {
        commitments_error(signature)
    } else if !signature.algorithm.spec_is_post_quantum() {
        Some(ProtocolError::UnsupportedSignatureAlgorithm)
    } else {
        None
    }
}

/// The error for a signature offered where a Dilithium signature is required.
pub open spec fn dilithium_error(signature: SignatureCommitment) -> Option<ProtocolError> {
    if commitments_error(signature) is Some {
        commitments_error(signature)
    } else if !signature.algorithm.spec_is_dilithium() {
        Some(ProtocolError::UnsupportedSignatureAlgorithm)
    } else {
        None
    }
}

/// The error for a required classical slot.
pub open spec fn required_classical_error(signature: Option<SignatureCommitment>) -> Option<
    ProtocolError,
> {
    match signature {
        None => Some(ProtocolError::MissingClassicalSignature),
        Some(s) => classical_error(s),
    }
}

/// The error for a required post-quantum slot.
pub open spec fn required_post_quantum_error(signature: Option<SignatureCommitment>) -> Option<
    ProtocolError,
> {
    match signature {
        None => Some(ProtocolError::MissingPostQuantumSignature),
        Some(s) => post_quantum_error(s),
    }
}

/// The error for a required Dilithium slot.
pub open spec fn required_dilithium_error(signature: Option<SignatureCommitment>) -> Option<
    ProtocolError,
> {
    match signature {
        None => Some(ProtocolError::MissingPostQuantumSignature),
        Some(s) => dilithium_error(s),
    }
}

/// The error for an optional post-quantum slot.
pub open spec fn optional_post_quantum_error(signature: Option<SignatureCommitment>) -> Option<
    ProtocolError,
> {
    match signature {
        None => None,
        Some(s) => post_quantum_error(s),
    }
}

/// The first error of the two checks, in order.
pub open spec fn first_error(a: Option<ProtocolError>, b: Option<ProtocolError>) -> Option<
    ProtocolError,
> {
    if a is Some {
        a
    } else {
        b
    }
}

/// The error a signature policy in `mode` reports for `bundle`, if any.
pub open spec fn bundle_error(mode: SignatureMode, bundle: SignatureBundle) -> Option<
    ProtocolError,
> {
    match mode {
        SignatureMode::ClassicalEcdsa => first_error(
            required_classical_error(bundle.classical),
            optional_post_quantum_error(bundle.post_quantum),
        ),
        SignatureMode::HybridDilithium => first_error(
            required_classical_error(bundle.classical),
            required_dilithium_error(bundle.post_quantum),
        ),
        SignatureMode::FullPostQuantum => first_error(
            if bundle.classical is Some {
                Some(ProtocolError::ClassicalSignatureDisallowed)
            } else {
                None
            },
            required_post_quantum_error(bundle.post_quantum),
        ),
    }
}

/// Whether both commitments of a signature are present.
pub open spec fn has_commitments(signature: SignatureCommitment) -> bool {
    !is_zero_commitment(signature.public_key_commitment) && !is_zero_commitment(
        signature.signature_commitment,
    )
}

impl SignaturePolicy {
    /// A policy enforcing `mode`.
    pub fn new(mode: SignatureMode) -> (r: Self)
        ensures
            r.mode == mode,
    {
        SignaturePolicy { mode }
    }

    /// Accepts a bundle that carries exactly the signatures the policy's phase requires.
    pub fn validate(self, bundle: SignatureBundle) -> (r: Result<SignatureBundle, ProtocolError>)
        ensures
            r == match bundle_error(self.mode, bundle) {
                Some(e) => Err(e),
                None => Ok(bundle),
            },
            // Every accepted signature carries both commitments and sits in its own family.
            r is Ok ==> (bundle.classical matches Some(c) ==> has_commitments(c)
                && c.algorithm.spec_is_classical()),
            r is Ok ==> (bundle.post_quantum matches Some(p) ==> has_commitments(p)
                && p.algorithm.spec_is_post_quantum()),
            // The classical phase requires a classical signature.
            r is Ok && self.mode == SignatureMode::ClassicalEcdsa ==> bundle.classical is Some,
            // The hybrid phase requires a classical signature and a Dilithium signature.
            r is Ok && self.mode == SignatureMode::HybridDilithium ==> bundle.classical is Some
                && (bundle.post_quantum matches Some(p) && p.algorithm.spec_is_dilithium()),
            // After the classical sunset no classical signature is accepted.
            r is Ok && self.mode == SignatureMode::FullPostQuantum ==> bundle.classical is None
                && bundle.post_quantum is Some,
    {
        match self.mode {
            SignatureMode::ClassicalEcdsa => {
                match require_classical(bundle.classical) {
                    Err(e) => {
                        return Err(e);
                    },
                    Ok(_) => {},
                }
                match validate_optional_post_quantum(bundle.post_quantum) {
                    Err(e) => {
                        return Err(e);
                    },
                    Ok(_) => {},
                }
            },
            SignatureMode::HybridDilithium => {
                match require_classical(bundle.classical) {
                    Err(e) => {
                        return Err(e);
                    },
                    Ok(_) => {},
                }
                match require_dilithium(bundle.post_quantum) {
                    Err(e) => {
                        return Err(e);
                    },
                    Ok(_) => {},
                }
            },
            SignatureMode::FullPostQuantum => {
                match reject_classical(bundle.classical) {
                    Err(e) => {
                        return Err(e);
                    },
                    Ok(_) => {},
                }
                match require_post_quantum(bundle.post_quantum) {
                    Err(e) => {
                        return Err(e);
                    },
                    Ok(_) => {},
                }
            },
        }
        Ok(bundle)
    }
}

/// Turns an optional error into a unit result.
pub open spec fn as_result(e: Option<ProtocolError>) -> Result<(), ProtocolError> {
    match e {
        Some(e) => Err(e),
        None => Ok(()),
    }
}

fn require_classical(signature: Option<SignatureCommitment>) -> (r: Result<(), ProtocolError>)
    ensures
        r == as_result(required_classical_error(signature)),
{
    match signature {
        None => Err(ProtocolError::MissingClassicalSignature),
        Some(s) => validate_classical(s),
    }
}

fn require_post_quantum(signature: Option<SignatureCommitment>) -> (r: Result<(), ProtocolError>)
    ensures
        r == as_result(required_post_quantum_error(signature)),
{
    match signature {
        None => Err(ProtocolError::MissingPostQuantumSignature),
        Some(s) => validate_post_quantum(s),
    }
}

fn require_dilithium(signature: Option<SignatureCommitment>) -> (r: Result<(), ProtocolError>)
    ensures
        r == as_result(required_dilithium_error(signature)),
{
    let signature = match signature {
        None => {
            return Err(ProtocolError::MissingPostQuantumSignature);
        },
        Some(s) => s,
    };
    match ensure_nonzero_commitments(signature) {
        Err(e) => {
            return Err(e);
        },
        Ok(_) => {},
    }
    if signature.algorithm.is_dilithium() {
        Ok(())
    } else {
        Err(ProtocolError::UnsupportedSignatureAlgorithm)
    }
}

fn reject_classical(signature: Option<SignatureCommitment>) -> (r: Result<(), ProtocolError>)
    ensures
        r == (if signature is Some {
            Err::<(), ProtocolError>(ProtocolError::ClassicalSignatureDisallowed)
        } else {
            Ok(())
        }),
{
    if signature.is_some() {
        Err(ProtocolError::ClassicalSignatureDisallowed)
    } else {
        Ok(())
    }
}

fn validate_optional_post_quantum(signature: Option<SignatureCommitment>) -> (r: Result<
    (),
    ProtocolError,
>)
    ensures
        r == as_result(optional_post_quantum_error(signature)),
{
    match signature {
        Some(s) => validate_post_quantum(s),
        None => Ok(()),
    }
}

fn validate_classical(signature: SignatureCommitment) -> (r: Result<(), ProtocolError>)
    ensures
        r == as_result(classical_error(signature)),
{
    match ensure_nonzero_commitments(signature) {
        Err(e) => {
            return Err(e);
        },
        Ok(_) => {},
    }
    if signature.algorithm.is_classical() {
        Ok(())
    } else {
        Err(ProtocolError::UnsupportedSignatureAlgorithm)
    }
}

fn validate_post_quantum(signature: SignatureCommitment) -> (r: Result<(), ProtocolError>)
    ensures
        r == as_result(post_quantum_error(signature)),
{
    match ensure_nonzero_commitments(signature) {
        Err(e) => {
            return Err(e);
        },
        Ok(_) => {},
    }
    if signature.algorithm.is_post_quantum() {
        Ok(())
    } else {
        Err(ProtocolError::UnsupportedSignatureAlgorithm)
    }
}

fn ensure_nonzero_commitments(signature: SignatureCommitment) -> (r: Result<(), ProtocolError>)
    ensures
        r == as_result(commitments_error(signature)),
{
    if commitment_is_zero(&signature.public_key_commitment) || commitment_is_zero(
        &signature.signature_commitment,
    ) {
        Err(ProtocolError::MissingCommitment)
    } else {
        Ok(())
    }
}

/// Whether a signature carries both commitments and is made by a classical algorithm
/// (`ecdsa_family`) or a post-quantum one.
pub open spec fn well_formed_in(signature: SignatureCommitment, ecdsa_family: bool) -> bool {
    &&& !is_zero_commitment(signature.public_key_commitment)
    &&& !is_zero_commitment(signature.signature_commitment)
    &&& if ecdsa_family {
        signature.algorithm == SignatureAlgorithm::Ecdsa || signature.algorithm
            == SignatureAlgorithm::Sr25519 || signature.algorithm == SignatureAlgorithm::Ed25519
    } else {
        signature.algorithm == SignatureAlgorithm::Dilithium3 || signature.algorithm
            == SignatureAlgorithm::Dilithium5 || signature.algorithm == SignatureAlgorithm::Falcon512
            || signature.algorithm == SignatureAlgorithm::SphincsPlus
    }
}

/// Each roadmap phase accepts exactly its bundles: the classical phase a well-formed classical
/// signature with an optional well-formed post-quantum one; the hybrid phase a well-formed
/// classical signature with a well-formed Dilithium one; the full post-quantum phase no
/// classical signature and a well-formed post-quantum one.
pub proof fn lemma_bundle_acceptance(mode: SignatureMode, bundle: SignatureBundle)
    ensures
        mode == SignatureMode::ClassicalEcdsa ==> (bundle_error(mode, bundle) is None <==> (
        bundle.classical matches Some(c) && well_formed_in(c, true)) && (bundle.post_quantum matches Some(
            p,
        ) ==> well_formed_in(p, false))),
        mode == SignatureMode::HybridDilithium ==> (bundle_error(mode, bundle) is None <==> (
        bundle.classical matches Some(c) && well_formed_in(c, true)) && (bundle.post_quantum matches Some(
            p,
        ) && well_formed_in(p, false) && (p.algorithm == SignatureAlgorithm::Dilithium3
            || p.algorithm == SignatureAlgorithm::Dilithium5))),
        mode == SignatureMode::FullPostQuantum ==> (bundle_error(mode, bundle) is None <==> (
        bundle.classical is None && (bundle.post_quantum matches Some(p) && well_formed_in(p, false)))),
{
}

} // verus!
