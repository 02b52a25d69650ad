use qubitum_protocol::shielding::{
    encoded_bytes_privacy_violation, encoded_runtime_call_contains_shield_submit,
    ensure_shield_submit_mortal_era, CheckMortality, CheckQubitumShielding,
    ContainsShieldSubmitEncrypted, MockQueueCallFilter, MortalityViolation, PreimageDecoding,
    RuntimeCallShape, ShieldingViolation, TransactionEra, MAX_CALL_SCAN_DEPTH,
    MAX_SHIELD_ERA_PERIOD,
};

fn submit_encrypted_call() -> RuntimeCallShape {
    RuntimeCallShape::ShieldSubmitEncrypted
}

fn remark_call() -> RuntimeCallShape {
    RuntimeCallShape::Other
}

fn utility_wrapped_submit_encrypted_call() -> RuntimeCallShape {
    RuntimeCallShape::UtilityIfElse(Box::new(remark_call()), Box::new(submit_encrypted_call()))
}

fn nested_utility_call(call: RuntimeCallShape, depth: u8) -> RuntimeCallShape {
    (0..depth).fold(call, |inner, _| RuntimeCallShape::UtilityBatch(vec![inner]))
}

/// Bytes that decode exactly to `call`, well inside every nesting budget.
fn exact_preimage(call: RuntimeCallShape) -> RuntimeCallShape {
    RuntimeCallShape::NotePreimage(PreimageDecoding {
        exact: Some(Box::new(copy_call(&call))),
        exact_within_budget: Some(Box::new(copy_call(&call))),
        prefix_within_budget: Some(Box::new(call)),
        decodable: true,
    })
}

/// Bytes whose prefix decodes to `call`, followed by trailing garbage.
fn prefix_preimage(call: RuntimeCallShape) -> RuntimeCallShape {
    RuntimeCallShape::NotePreimage(PreimageDecoding {
        exact: None,
        exact_within_budget: None,
        prefix_within_budget: Some(Box::new(call)),
        decodable: true,
    })
}

/// Bytes of `call` wrapped deeper than the scan budget: they decode only without a limit.
fn deeply_nested_preimage(call: RuntimeCallShape) -> RuntimeCallShape {
    RuntimeCallShape::NotePreimage(PreimageDecoding {
        exact: Some(Box::new(nested_utility_call(call, MAX_CALL_SCAN_DEPTH + 1))),
        exact_within_budget: None,
        prefix_within_budget: None,
        decodable: true,
    })
}

fn malformed_preimage() -> RuntimeCallShape {
    RuntimeCallShape::NotePreimage(PreimageDecoding {
        exact: None,
        exact_within_budget: None,
        prefix_within_budget: None,
        decodable: false,
    })
}

fn copy_call(call: &RuntimeCallShape) -> RuntimeCallShape {
    match call {
        RuntimeCallShape::ShieldSubmitEncrypted => RuntimeCallShape::ShieldSubmitEncrypted,
        RuntimeCallShape::ShieldStoreEncrypted => RuntimeCallShape::ShieldStoreEncrypted,
        RuntimeCallShape::ShieldOther => RuntimeCallShape::ShieldOther,
        RuntimeCallShape::Qubitum => RuntimeCallShape::Qubitum,
        RuntimeCallShape::UtilityBatch(calls) => {
            RuntimeCallShape::UtilityBatch(calls.iter().map(copy_call).collect())
        }
        RuntimeCallShape::UtilityWrap(inner) => {
            RuntimeCallShape::UtilityWrap(Box::new(copy_call(inner)))
        }
        RuntimeCallShape::UtilityIfElse(main, fallback) => RuntimeCallShape::UtilityIfElse(
            Box::new(copy_call(main)),
            Box::new(copy_call(fallback)),
        ),
        RuntimeCallShape::UtilityOther => RuntimeCallShape::UtilityOther,
        RuntimeCallShape::PrivilegedWrap(inner) => {
            RuntimeCallShape::PrivilegedWrap(Box::new(copy_call(inner)))
        }
        RuntimeCallShape::NotePreimage(p) => RuntimeCallShape::NotePreimage(PreimageDecoding {
            exact: p.exact.as_ref().map(|c| Box::new(copy_call(c))),
            exact_within_budget: p.exact_within_budget.as_ref().map(|c| Box::new(copy_call(c))),
            prefix_within_budget: p.prefix_within_budget.as_ref().map(|c| Box::new(copy_call(c))),
            decodable: p.decodable,
        }),
        RuntimeCallShape::Other => RuntimeCallShape::Other,
    }
}

fn privileged_wrapped_submit_encrypted_calls() -> Vec<RuntimeCallShape> {
    let proxy_submit = RuntimeCallShape::PrivilegedWrap(Box::new(submit_encrypted_call()));
    let mut calls: Vec<RuntimeCallShape> = (0..11)
        .map(|_| RuntimeCallShape::PrivilegedWrap(Box::new(submit_encrypted_call())))
        .collect();
    calls.push(exact_preimage(proxy_submit));
    calls
}

fn mortal(period: u64) -> TransactionEra {
    TransactionEra::Mortal(period, 1)
}


fn validate_era_check(era: TransactionEra, call: &RuntimeCallShape) -> Result<(), MortalityViolation> {
    ensure_shield_submit_mortal_era(era, call)
}

fn prepare(era: TransactionEra, call: &RuntimeCallShape) -> Result<(), MortalityViolation> {
    CheckMortality::from(era).validate(call)
}

fn preimage_wrapped_submit_encrypted_call() -> RuntimeCallShape {
    exact_preimage(utility_wrapped_submit_encrypted_call())
}

fn preimage_wrapped_submit_encrypted_call_with_trailing_bytes() -> RuntimeCallShape {
    prefix_preimage(utility_wrapped_submit_encrypted_call())
}

#[test]
fn shield_tx_with_immortal_era_rejected() {
    assert_eq!(
        validate_era_check(TransactionEra::Immortal, &submit_encrypted_call()),
        Err(MortalityViolation::Stale)
    );
}

#[test]
fn prepare_rejects_shield_tx_with_immortal_era_before_substrate_mortality() {
    assert_eq!(
        prepare(TransactionEra::Immortal, &submit_encrypted_call()),
        Err(MortalityViolation::Stale)
    );
}

#[test]
fn prepare_rejects_wrapped_shield_tx_with_immortal_era_before_substrate_mortality() {
    for call in [
        utility_wrapped_submit_encrypted_call(),
        preimage_wrapped_submit_encrypted_call(),
        deeply_nested_preimage(submit_encrypted_call()),
    ] {
        assert_eq!(prepare(TransactionEra::Immortal, &call), Err(MortalityViolation::Stale));
    }
}

#[test]
fn prepare_rejects_privileged_wrapped_shield_tx_before_substrate_mortality() {
    for call in privileged_wrapped_submit_encrypted_calls() {
        assert_eq!(prepare(TransactionEra::Immortal, &call), Err(MortalityViolation::Stale));
    }
}

#[test]
fn shield_tx_with_era_too_long_rejected() {
    assert_eq!(validate_era_check(mortal(16), &submit_encrypted_call()), Err(MortalityViolation::Stale));
}

#[test]
fn wrapped_shield_tx_with_immortal_era_rejected() {
    assert_eq!(
        validate_era_check(TransactionEra::Immortal, &utility_wrapped_submit_encrypted_call()),
        Err(MortalityViolation::Stale)
    );
}

#[test]
fn privileged_wrapped_shield_tx_with_long_era_rejected() {
    for call in privileged_wrapped_submit_encrypted_calls() {
        assert_eq!(validate_era_check(mortal(16), &call), Err(MortalityViolation::Stale));
    }
}

#[test]
fn encoded_preimage_shield_tx_with_long_era_rejected() {
    assert_eq!(
        validate_era_check(mortal(16), &preimage_wrapped_submit_encrypted_call()),
        Err(MortalityViolation::Stale)
    );
}

#[test]
fn encoded_preimage_shield_tx_prefix_with_trailing_bytes_has_short_era_enforced() {
    assert_eq!(
        validate_era_check(mortal(16), &preimage_wrapped_submit_encrypted_call_with_trailing_bytes()),
        Err(MortalityViolation::Stale)
    );
}

#[test]
fn deeply_nested_encoded_preimage_shield_tx_with_long_era_fails_closed() {
    assert_eq!(
        validate_era_check(mortal(16), &deeply_nested_preimage(submit_encrypted_call())),
        Err(MortalityViolation::Stale)
    );
}

#[test]
fn deeply_nested_encoded_preimage_prefix_with_trailing_bytes_fails_closed() {
    // Trailing bytes after a call nested past the budget: only the unbounded probe decodes.
    let call = RuntimeCallShape::NotePreimage(PreimageDecoding {
        exact: None,
        exact_within_budget: None,
        prefix_within_budget: None,
        decodable: true,
    });
    assert_eq!(validate_era_check(mortal(16), &call), Err(MortalityViolation::Stale));
}

#[test]
fn deeply_nested_encoded_preimage_non_shield_tx_with_long_era_fails_closed() {
    assert_eq!(
        validate_era_check(mortal(16), &deeply_nested_preimage(remark_call())),
        Err(MortalityViolation::Stale)
    );
}

#[test]
fn malformed_encoded_preimage_with_long_era_passes_through() {
    assert!(validate_era_check(mortal(256), &malformed_preimage()).is_ok());
}

#[test]
fn shield_tx_with_max_allowed_era_accepted() {
    assert!(validate_era_check(mortal(8), &submit_encrypted_call()).is_ok());
    assert!(validate_era_check(mortal(8), &utility_wrapped_submit_encrypted_call()).is_ok());
}

#[test]
fn shield_tx_with_short_era_accepted() {
    assert!(validate_era_check(mortal(4), &submit_encrypted_call()).is_ok());
}

#[test]
fn non_shield_tx_with_immortal_era_passes_through() {
    assert!(validate_era_check(TransactionEra::Immortal, &remark_call()).is_ok());
}

#[test]
fn non_shield_tx_with_long_era_passes_through() {
    assert!(validate_era_check(mortal(256), &remark_call()).is_ok());
}

#[test]
fn check_mortality_keeps_its_era() {
    let ext = CheckMortality::from(mortal(256));
    assert_eq!(ext.0, mortal(256));
    assert_eq!(ext.validate(&remark_call()), Ok(()));
    assert_eq!(MAX_SHIELD_ERA_PERIOD, 8);
}

#[test]
fn nesting_at_the_scan_depth_counts_as_a_shield_call() {
    assert!(!nested_utility_call(remark_call(), MAX_CALL_SCAN_DEPTH - 1)
        .contains_shield_submit_encrypted());
    assert!(nested_utility_call(remark_call(), MAX_CALL_SCAN_DEPTH)
        .contains_shield_submit_encrypted());
    assert!(encoded_runtime_call_contains_shield_submit(&malformed_preimage_decoding(), MAX_CALL_SCAN_DEPTH));
    assert!(!encoded_runtime_call_contains_shield_submit(&malformed_preimage_decoding(), 1));
}

fn malformed_preimage_decoding() -> PreimageDecoding {
    PreimageDecoding {
        exact: None,
        exact_within_budget: None,
        prefix_within_budget: None,
        decodable: false,
    }
}

fn direct_qubitum_call() -> RuntimeCallShape {
    RuntimeCallShape::Qubitum
}

fn shield_call() -> RuntimeCallShape {
    RuntimeCallShape::ShieldSubmitEncrypted
}

fn validate_ext(call: &RuntimeCallShape) -> Result<(), ShieldingViolation> {
    CheckQubitumShielding::new().validate(call)
}

#[test]
fn direct_external_qubitum_call_must_be_shielded() {
    assert_eq!(
        validate_ext(&direct_qubitum_call()),
        Err(ShieldingViolation::QubitumCallMustBeShielded)
    );
}

#[test]
fn unsigned_external_qubitum_call_must_be_shielded() {
    // The verdict does not depend on the origin.
    assert_eq!(
        CheckQubitumShielding::privacy_violation(&direct_qubitum_call()),
        Some(ShieldingViolation::QubitumCallMustBeShielded)
    );
}

#[test]
fn utility_wrapped_external_qubitum_call_must_be_shielded() {
    let call = RuntimeCallShape::UtilityBatch(vec![direct_qubitum_call()]);
    assert_eq!(validate_ext(&call), Err(ShieldingViolation::QubitumCallMustBeShielded));
}

#[test]
fn proxy_wrapped_external_qubitum_call_must_be_shielded() {
    let call = RuntimeCallShape::PrivilegedWrap(Box::new(direct_qubitum_call()));
    assert_eq!(validate_ext(&call), Err(ShieldingViolation::QubitumCallMustBeShielded));
}

#[test]
fn sudo_wrapped_external_qubitum_call_must_be_shielded() {
    let call = RuntimeCallShape::PrivilegedWrap(Box::new(direct_qubitum_call()));
    assert_eq!(validate_ext(&call), Err(ShieldingViolation::QubitumCallMustBeShielded));
}

#[test]
fn multisig_wrapped_external_qubitum_call_must_be_shielded() {
    let call = RuntimeCallShape::PrivilegedWrap(Box::new(direct_qubitum_call()));
    assert_eq!(validate_ext(&call), Err(ShieldingViolation::QubitumCallMustBeShielded));
}

#[test]
fn scheduler_wrapped_external_qubitum_call_must_be_shielded() {
    let call = RuntimeCallShape::PrivilegedWrap(Box::new(direct_qubitum_call()));
    assert_eq!(validate_ext(&call), Err(ShieldingViolation::QubitumCallMustBeShielded));
}

#[test]
fn encoded_preimage_qubitum_call_must_be_shielded() {
    let call = exact_preimage(direct_qubitum_call());
    assert_eq!(validate_ext(&call), Err(ShieldingViolation::QubitumCallMustBeShielded));
}

#[test]
fn encoded_preimage_non_qubitum_call_passes() {
    let call = exact_preimage(remark_call());
    assert!(validate_ext(&call).is_ok());
}

#[test]
fn store_encrypted_is_disabled_in_public_runtime() {
    assert_eq!(
        validate_ext(&RuntimeCallShape::ShieldStoreEncrypted),
        Err(ShieldingViolation::ShieldStoreEncryptedDisabled)
    );
}

#[test]
fn store_encrypted_ciphertext_bytes_are_disabled_in_public_runtime() {
    // The encrypted payload is not inspected: the call itself is refused.
    assert_eq!(
        CheckQubitumShielding::privacy_violation(&RuntimeCallShape::ShieldStoreEncrypted),
        Some(ShieldingViolation::ShieldStoreEncryptedDisabled)
    );
}

#[test]
fn utility_wrapped_store_encrypted_is_disabled_in_public_runtime() {
    let call = RuntimeCallShape::UtilityBatch(vec![RuntimeCallShape::ShieldStoreEncrypted]);
    assert_eq!(validate_ext(&call), Err(ShieldingViolation::ShieldStoreEncryptedDisabled));
}

#[test]
fn shield_envelope_and_non_qubitum_calls_pass() {
    assert!(validate_ext(&shield_call()).is_ok());
    assert!(validate_ext(&remark_call()).is_ok());
}

#[test]
fn inblock_qubitum_call_must_be_shielded() {
    // The verdict does not depend on the transaction source.
    assert_eq!(
        validate_ext(&direct_qubitum_call()),
        Err(ShieldingViolation::QubitumCallMustBeShielded)
    );
}

#[test]
fn wrapped_qubitum_calls_in_every_position_must_be_shielded() {
    let wrapped = [
        RuntimeCallShape::UtilityBatch(vec![remark_call(), direct_qubitum_call()]),
        RuntimeCallShape::UtilityWrap(Box::new(direct_qubitum_call())),
        RuntimeCallShape::UtilityIfElse(Box::new(remark_call()), Box::new(direct_qubitum_call())),
    ];
    for call in wrapped {
        assert_eq!(validate_ext(&call), Err(ShieldingViolation::QubitumCallMustBeShielded));
    }
    // Trailing bytes or undecodable bytes are not inspected by the privacy scan.
    assert!(validate_ext(&prefix_preimage(direct_qubitum_call())).is_ok());
    assert!(validate_ext(&malformed_preimage()).is_ok());
}

#[test]
fn first_violation_in_a_batch_wins() {
    let batch = RuntimeCallShape::UtilityBatch(vec![
        RuntimeCallShape::ShieldStoreEncrypted,
        RuntimeCallShape::Qubitum,
    ]);
    assert_eq!(
        CheckQubitumShielding::privacy_violation(&batch),
        Some(ShieldingViolation::ShieldStoreEncryptedDisabled)
    );
    let if_else = RuntimeCallShape::UtilityIfElse(
        Box::new(RuntimeCallShape::Qubitum),
        Box::new(RuntimeCallShape::ShieldStoreEncrypted),
    );
    assert_eq!(
        CheckQubitumShielding::privacy_violation(&if_else),
        Some(ShieldingViolation::QubitumCallMustBeShielded)
    );
}

#[test]
fn privacy_scan_fails_closed_at_depth() {
    assert_eq!(
        validate_ext(&nested_utility_call(remark_call(), MAX_CALL_SCAN_DEPTH)),
        Err(ShieldingViolation::QubitumCallMustBeShielded)
    );
    assert_eq!(validate_ext(&nested_utility_call(remark_call(), MAX_CALL_SCAN_DEPTH - 1)), Ok(()));
    assert_eq!(
        encoded_bytes_privacy_violation(
            &PreimageDecoding {
                exact: Some(Box::new(remark_call())),
                exact_within_budget: None,
                prefix_within_budget: None,
                decodable: true,
            },
            MAX_CALL_SCAN_DEPTH
        ),
        Some(ShieldingViolation::QubitumCallMustBeShielded)
    );
}

#[test]
fn queue_filter_refuses_recursive_shield_calls() {
    assert!(!MockQueueCallFilter::contains(&submit_encrypted_call()));
    assert!(!MockQueueCallFilter::contains(&RuntimeCallShape::ShieldStoreEncrypted));
    assert!(!MockQueueCallFilter::contains(&utility_wrapped_submit_encrypted_call()));
    assert!(!MockQueueCallFilter::contains(&nested_utility_call(remark_call(), 8)));
    assert!(MockQueueCallFilter::contains(&nested_utility_call(remark_call(), 7)));
    assert!(MockQueueCallFilter::contains(&remark_call()));
    assert!(MockQueueCallFilter::contains(&RuntimeCallShape::ShieldOther));
    // Only utility wrappers are searched.
    assert!(MockQueueCallFilter::contains(&RuntimeCallShape::PrivilegedWrap(Box::new(
        submit_encrypted_call()
    ))));
}
