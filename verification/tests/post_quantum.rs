use qubitum_protocol::{
    Commitment, ProtocolError, SignatureAlgorithm, SignatureBundle, SignatureCommitment,
    SignatureMode, SignaturePolicy,
};

const CLASSICAL_ALGORITHMS: [SignatureAlgorithm; 3] = [
    SignatureAlgorithm::Ecdsa,
    SignatureAlgorithm::Sr25519,
    SignatureAlgorithm::Ed25519,
];
const POST_QUANTUM_ALGORITHMS: [SignatureAlgorithm; 4] = [
    SignatureAlgorithm::Dilithium3,
    SignatureAlgorithm::Dilithium5,
    SignatureAlgorithm::Falcon512,
    SignatureAlgorithm::SphincsPlus,
];
const ALL_ALGORITHMS: [SignatureAlgorithm; 7] = [
    SignatureAlgorithm::Ecdsa,
    SignatureAlgorithm::Sr25519,
    SignatureAlgorithm::Ed25519,
    SignatureAlgorithm::Dilithium3,
    SignatureAlgorithm::Dilithium5,
    SignatureAlgorithm::Falcon512,
    SignatureAlgorithm::SphincsPlus,
];

fn commitment(seed: u8) -> Commitment {
    [seed; 32]
}

fn sig(algorithm: SignatureAlgorithm, seed: u8) -> SignatureCommitment {
    SignatureCommitment {
        algorithm,
        public_key_commitment: commitment(seed),
        signature_commitment: commitment(seed.saturating_add(1)),
    }
}

#[test]
fn classical_phase_accepts_classical_signature() {
    let bundle = SignatureBundle {
        classical: Some(sig(SignatureAlgorithm::Ecdsa, 1)),
        post_quantum: None,
    };

    assert_eq!(
        SignaturePolicy::new(SignatureMode::ClassicalEcdsa).validate(bundle),
        Ok(bundle)
    );
}

#[test]
fn hybrid_phase_requires_dual_signatures() {
    let missing_pq = SignatureBundle {
        classical: Some(sig(SignatureAlgorithm::Ecdsa, 1)),
        post_quantum: None,
    };
    assert_eq!(
        SignaturePolicy::new(SignatureMode::HybridDilithium).validate(missing_pq),
        Err(ProtocolError::MissingPostQuantumSignature)
    );

    let dual = SignatureBundle {
        classical: Some(sig(SignatureAlgorithm::Ecdsa, 1)),
        post_quantum: Some(sig(SignatureAlgorithm::Dilithium3, 3)),
    };
    assert_eq!(
        SignaturePolicy::new(SignatureMode::HybridDilithium).validate(dual),
        Ok(dual)
    );
}

#[test]
fn hybrid_phase_rejects_non_dilithium_post_quantum_signatures() {
    for algorithm in [
        SignatureAlgorithm::Falcon512,
        SignatureAlgorithm::SphincsPlus,
    ] {
        let bundle = SignatureBundle {
            classical: Some(sig(SignatureAlgorithm::Ecdsa, 1)),
            post_quantum: Some(sig(algorithm, 3)),
        };
        assert_eq!(
            SignaturePolicy::new(SignatureMode::HybridDilithium).validate(bundle),
            Err(ProtocolError::UnsupportedSignatureAlgorithm)
        );
    }
}

#[test]
fn full_post_quantum_phase_accepts_pq_without_classical() {
    let bundle = SignatureBundle {
        classical: None,
        post_quantum: Some(sig(SignatureAlgorithm::Dilithium5, 2)),
    };

    assert_eq!(
        SignaturePolicy::new(SignatureMode::FullPostQuantum).validate(bundle),
        Ok(bundle)
    );
}

#[test]
fn full_post_quantum_phase_rejects_classical_only() {
    let bundle = SignatureBundle {
        classical: Some(sig(SignatureAlgorithm::Ecdsa, 1)),
        post_quantum: None,
    };

    assert_eq!(
        SignaturePolicy::new(SignatureMode::FullPostQuantum).validate(bundle),
        Err(ProtocolError::ClassicalSignatureDisallowed)
    );
}

#[test]
fn full_post_quantum_phase_rejects_dual_signature_after_classical_sunset() {
    let bundle = SignatureBundle {
        classical: Some(sig(SignatureAlgorithm::Ecdsa, 1)),
        post_quantum: Some(sig(SignatureAlgorithm::Dilithium3, 3)),
    };

    assert_eq!(
        SignaturePolicy::new(SignatureMode::FullPostQuantum).validate(bundle),
        Err(ProtocolError::ClassicalSignatureDisallowed)
    );
}

#[test]
fn signature_policy_rejects_zero_commitments() {
    let zero_public_key = SignatureBundle {
        classical: Some(SignatureCommitment {
            algorithm: SignatureAlgorithm::Ecdsa,
            public_key_commitment: [0; 32],
            signature_commitment: commitment(2),
        }),
        post_quantum: None,
    };
    assert_eq!(
        SignaturePolicy::new(SignatureMode::ClassicalEcdsa).validate(zero_public_key),
        Err(ProtocolError::MissingCommitment)
    );

    let zero_signature = SignatureBundle {
        classical: None,
        post_quantum: Some(SignatureCommitment {
            algorithm: SignatureAlgorithm::Dilithium3,
            public_key_commitment: commitment(3),
            signature_commitment: [0; 32],
        }),
    };
    assert_eq!(
        SignaturePolicy::new(SignatureMode::FullPostQuantum).validate(zero_signature),
        Err(ProtocolError::MissingCommitment)
    );
}

#[test]
fn signature_policy_validates_optional_slots_when_present() {
    let wrong_extra_slot = SignatureBundle {
        classical: Some(sig(SignatureAlgorithm::Ecdsa, 1)),
        post_quantum: Some(sig(SignatureAlgorithm::Ed25519, 3)),
    };
    assert_eq!(
        SignaturePolicy::new(SignatureMode::ClassicalEcdsa).validate(wrong_extra_slot),
        Err(ProtocolError::UnsupportedSignatureAlgorithm)
    );

    let malformed_extra_slot = SignatureBundle {
        classical: Some(SignatureCommitment {
            algorithm: SignatureAlgorithm::Ecdsa,
            public_key_commitment: [0; 32],
            signature_commitment: commitment(2),
        }),
        post_quantum: Some(sig(SignatureAlgorithm::Dilithium3, 3)),
    };
    assert_eq!(
        SignaturePolicy::new(SignatureMode::FullPostQuantum).validate(malformed_extra_slot),
        Err(ProtocolError::ClassicalSignatureDisallowed)
    );
}

#[test]
fn signature_policy_accepts_every_algorithm_in_its_own_slot() {
    for (index, algorithm) in CLASSICAL_ALGORITHMS.iter().copied().enumerate() {
        let bundle = SignatureBundle {
            classical: Some(sig(algorithm, index as u8 + 10)),
            post_quantum: None,
        };
        assert_eq!(
            SignaturePolicy::new(SignatureMode::ClassicalEcdsa).validate(bundle),
            Ok(bundle)
        );
    }

    for (index, algorithm) in POST_QUANTUM_ALGORITHMS.iter().copied().enumerate() {
        let bundle = SignatureBundle {
            classical: None,
            post_quantum: Some(sig(algorithm, index as u8 + 20)),
        };
        assert_eq!(
            SignaturePolicy::new(SignatureMode::FullPostQuantum).validate(bundle),
            Ok(bundle)
        );
    }
}

#[test]
fn signature_policy_rejects_every_algorithm_in_the_wrong_slot() {
    for (index, algorithm) in POST_QUANTUM_ALGORITHMS.iter().copied().enumerate() {
        let bundle = SignatureBundle {
            classical: Some(sig(algorithm, index as u8 + 30)),
            post_quantum: None,
        };
        assert_eq!(
            SignaturePolicy::new(SignatureMode::ClassicalEcdsa).validate(bundle),
            Err(ProtocolError::UnsupportedSignatureAlgorithm)
        );
    }

    for (index, algorithm) in CLASSICAL_ALGORITHMS.iter().copied().enumerate() {
        let bundle = SignatureBundle {
            classical: None,
            post_quantum: Some(sig(algorithm, index as u8 + 40)),
        };
        assert_eq!(
            SignaturePolicy::new(SignatureMode::FullPostQuantum).validate(bundle),
            Err(ProtocolError::UnsupportedSignatureAlgorithm)
        );
    }
}

#[test]
fn hybrid_policy_matrix_requires_one_valid_signature_per_family() {
    for classical in ALL_ALGORITHMS {
        for post_quantum in ALL_ALGORITHMS {
            let bundle = SignatureBundle {
                classical: Some(sig(classical, 50)),
                post_quantum: Some(sig(post_quantum, 60)),
            };
            let expected = if classical.is_classical() && post_quantum.is_dilithium() {
                Ok(bundle)
            } else {
                Err(ProtocolError::UnsupportedSignatureAlgorithm)
            };

            assert_eq!(
                SignaturePolicy::new(SignatureMode::HybridDilithium).validate(bundle),
                expected
            );
        }
    }
}
