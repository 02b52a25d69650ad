use qubitum_protocol::weights::{rocks_db_weight, RuntimeDbWeight, SubstrateWeight, Weight};

fn outside(db: RuntimeDbWeight, ref_time: u64, proof_size: u64, r: u64, w: u64) -> Weight {
    let db = sp_weights::RuntimeDbWeight { read: db.read, write: db.write };
    let weight = sp_weights::Weight::from_parts(ref_time, proof_size)
        .saturating_add(db.reads(r))
        .saturating_add(db.writes(w));
    Weight { ref_time: weight.ref_time(), proof_size: weight.proof_size() }
}

#[test]
fn rocks_db_weights_of_extrinsics() {
    let weights = SubstrateWeight::rocks_db();
    assert_eq!(weights.db, RuntimeDbWeight { read: 25_000_000, write: 100_000_000 });
    assert_eq!(rocks_db_weight(), weights.db);
    assert_eq!(
        weights.create_subnet(),
        Weight { ref_time: 55_000_000 + 3 * 25_000_000 + 4 * 100_000_000, proof_size: 6_500 }
    );
    assert_eq!(
        weights.submit_proof(),
        Weight { ref_time: 85_000_000 + 14 * 25_000_000 + 12 * 100_000_000, proof_size: 10_000 }
    );
    assert_eq!(
        weights.request_inference(),
        Weight { ref_time: 50_000_000 + 25 * 25_000_000 + 6 * 100_000_000, proof_size: 7_000 }
    );
}

#[test]
fn weights_match_the_substrate_weight_arithmetic() {
    for db in [
        rocks_db_weight(),
        RuntimeDbWeight { read: 1, write: 2 },
        RuntimeDbWeight { read: u64::MAX / 3, write: u64::MAX },
    ] {
        let weights = SubstrateWeight::new(db);
        assert_eq!(weights.create_subnet(), outside(db, 55_000_000, 6_500, 3, 4));
        assert_eq!(weights.register_miner(), outside(db, 65_000_000, 7_000, 4, 4));
        assert_eq!(weights.activate_miner(), outside(db, 70_000_000, 7_000, 3, 3));
        assert_eq!(weights.deactivate_miner(), outside(db, 45_000_000, 5_000, 2, 1));
        assert_eq!(weights.withdraw_miner_bond(), outside(db, 55_000_000, 6_500, 2, 2));
        assert_eq!(weights.register_validator(), outside(db, 70_000_000, 7_000, 3, 3));
        assert_eq!(weights.deactivate_validator(), outside(db, 45_000_000, 5_000, 2, 1));
        assert_eq!(weights.withdraw_validator_stake(), outside(db, 55_000_000, 6_500, 2, 2));
        assert_eq!(weights.submit_proof(), outside(db, 85_000_000, 10_000, 14, 12));
        assert_eq!(weights.slash_miner(), outside(db, 75_000_000, 7_000, 3, 3));
        assert_eq!(weights.slash_validator(), outside(db, 75_000_000, 7_000, 3, 3));
        assert_eq!(weights.request_inference(), outside(db, 50_000_000, 7_000, 25, 6));
        assert_eq!(weights.cancel_inference(), outside(db, 45_000_000, 6_500, 4, 4));
    }
}

#[test]
fn weights_saturate() {
    let weights = SubstrateWeight::new(RuntimeDbWeight { read: u64::MAX, write: 0 });
    assert_eq!(weights.create_subnet(), Weight { ref_time: u64::MAX, proof_size: 6_500 });
    let sum = Weight::from_parts(u64::MAX - 1, 3).saturating_add(Weight::from_parts(5, u64::MAX));
    assert_eq!(sum, Weight { ref_time: u64::MAX, proof_size: u64::MAX });
    let db = RuntimeDbWeight { read: 10, write: u64::MAX };
    assert_eq!(db.reads_writes(3, 2), Weight { ref_time: u64::MAX, proof_size: 0 });
    assert_eq!(db.reads(4), Weight { ref_time: 40, proof_size: 0 });
    assert_eq!(db.writes(0), Weight { ref_time: 0, proof_size: 0 });
}
