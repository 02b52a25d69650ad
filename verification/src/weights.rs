//! Dispatch weights of the Qubitum extrinsics: a fixed base cost plus the cost of the database
//! reads and writes each one performs, with every sum and product saturating.
use vstd::prelude::*;

verus! {

/// `a + b`, saturating at `u64::MAX`.
pub open spec fn saturating_add_u64(a: u64, b: u64) -> u64 {
    if a + b > u64::MAX {
        u64::MAX
    } else {
        (a + b) as u64
    }
}

/// `a * b`, saturating at `u64::MAX`.
pub open spec fn saturating_mul_u64(a: u64, b: u64) -> u64 {
    if a * b > u64::MAX {
        u64::MAX
    } else {
        (a * b) as u64
    }
}

/// `a * b`, saturating at `u64::MAX`.
fn saturating_mul(a: u64, b: u64) -> (r: u64)
    ensures
        r == saturating_mul_u64(a, b),
{
    match a.checked_mul(b) {
        Some(v) => v,
        None => u64::MAX,
    }
}

/// Picoseconds of reference time per nanosecond.
pub const WEIGHT_REF_TIME_PER_NANOS: u64 = 1_000;

/// A two-dimensional weight: reference time in picoseconds and proof size in bytes.
#[derive(Clone, Copy, Debug, PartialEq, Eq, Structural)]
pub struct Weight {
    pub ref_time: u64,
    pub proof_size: u64,
}

impl Weight {
    /// The sum of two weights, each part saturating.
    pub open spec fn spec_saturating_add(self, rhs: Weight) -> Weight {
        Weight {
            ref_time: saturating_add_u64(self.ref_time, rhs.ref_time),
            proof_size: saturating_add_u64(self.proof_size, rhs.proof_size),
        }
    }

    /// The weight with the given parts.
    pub fn from_parts(ref_time: u64, proof_size: u64) -> (r: Weight)
        ensures
            r == (Weight { ref_time, proof_size }),
    {
        Weight { ref_time, proof_size }
    }

    /// The sum of two weights, each part saturating at `u64::MAX`.
    pub fn saturating_add(self, rhs: Weight) -> (r: Weight)
        ensures
            r == self.spec_saturating_add(rhs),
    {
        Weight {
            ref_time: self.ref_time.saturating_add(rhs.ref_time),
            proof_size: self.proof_size.saturating_add(rhs.proof_size),
        }
    }
}

/// The cost of one database read and of one database write, in reference time.
#[derive(Clone, Copy, Debug, PartialEq, Eq, Structural)]
pub struct RuntimeDbWeight {
    pub read: u64,
    pub write: u64,
}

impl RuntimeDbWeight {
    /// The weight of `r` reads.
    pub open spec fn spec_reads(self, r: u64) -> Weight {
        Weight { ref_time: saturating_mul_u64(self.read, r), proof_size: 0 }
    }

    /// The weight of `w` writes.
    pub open spec fn spec_writes(self, w: u64) -> Weight {
        Weight { ref_time: saturating_mul_u64(self.write, w), proof_size: 0 }
    }

    /// The weight of `r` reads.
    pub fn reads(self, r: u64) -> (weight: Weight)
        ensures
            weight == self.spec_reads(r),
    {
        Weight::from_parts(saturating_mul(self.read, r), 0)
    }

    /// The weight of `w` writes.
    pub fn writes(self, w: u64) -> (weight: Weight)
        ensures
            weight == self.spec_writes(w),
    {
        Weight::from_parts(saturating_mul(self.write, w), 0)
    }

    /// The weight of `r` reads and `w` writes.
    pub fn reads_writes(self, r: u64, w: u64) -> (weight: Weight)
        ensures
            weight == (Weight {
                ref_time: saturating_add_u64(
                    saturating_mul_u64(self.read, r),
                    saturating_mul_u64(self.write, w),
                ),
                proof_size: 0,
            }),
    {
        let read_weight = saturating_mul(self.read, r);
        let write_weight = saturating_mul(self.write, w);
        Weight::from_parts(read_weight.saturating_add(write_weight), 0)
    }
}

/// The database weights of a RocksDB backend: 25 µs per read and 100 µs per write.
pub fn rocks_db_weight() -> (r: RuntimeDbWeight)
    ensures
        r.read == 25_000 * WEIGHT_REF_TIME_PER_NANOS,
        r.write == 100_000 * WEIGHT_REF_TIME_PER_NANOS,
{
    RuntimeDbWeight {
        read: 25_000 * WEIGHT_REF_TIME_PER_NANOS,
        write: 100_000 * WEIGHT_REF_TIME_PER_NANOS,
    }
}

/// The weight of an extrinsic: its base cost plus `reads` reads and `writes` writes.
pub open spec fn extrinsic_weight(
    db: RuntimeDbWeight,
    ref_time: u64,
    proof_size: u64,
    reads: u64,
    writes: u64,
) -> Weight {
    (Weight { ref_time, proof_size }).spec_saturating_add(db.spec_reads(reads)).spec_saturating_add(
        db.spec_writes(writes),
    )
}

fn weigh(db: RuntimeDbWeight, ref_time: u64, proof_size: u64, reads: u64, writes: u64) -> (r:
    Weight)
    ensures
        r == extrinsic_weight(db, ref_time, proof_size, reads, writes),
{
    Weight::from_parts(ref_time, proof_size).saturating_add(db.reads(reads)).saturating_add(
        db.writes(writes),
    )
}

/// The weights of the Qubitum extrinsics under a runtime's database weights.
#[derive(Clone, Copy, Debug, PartialEq, Eq, Structural)]
pub struct SubstrateWeight {
    pub db: RuntimeDbWeight,
}

impl SubstrateWeight {
    /// Weights under the database weights `db`.
    pub fn new(db: RuntimeDbWeight) -> (r: Self)
        ensures
            r.db == db,
    {
        SubstrateWeight { db }
    }

    /// Weights under RocksDB database weights.
    pub fn rocks_db() -> (r: Self)
        ensures
            r.db == (RuntimeDbWeight { read: 25_000_000, write: 100_000_000 }),
    {
        SubstrateWeight { db: rocks_db_weight() }
    }

    pub fn create_subnet(&self) -> (r: Weight)
        ensures
            r == extrinsic_weight(self.db, 55_000_000, 6_500, 3, 4),
    {
        weigh(self.db, 55_000_000, 6_500, 3, 4)
    }

    pub fn register_miner(&self) -> (r: Weight)
        ensures
            r == extrinsic_weight(self.db, 65_000_000, 7_000, 4, 4),
    {
        weigh(self.db, 65_000_000, 7_000, 4, 4)
    }

    pub fn activate_miner(&self) -> (r: Weight)
        ensures
            r == extrinsic_weight(self.db, 70_000_000, 7_000, 3, 3),
    {
        weigh(self.db, 70_000_000, 7_000, 3, 3)
    }

    pub fn deactivate_miner(&self) -> (r: Weight)
        ensures
            r == extrinsic_weight(self.db, 45_000_000, 5_000, 2, 1),
    {
        weigh(self.db, 45_000_000, 5_000, 2, 1)
    }

    pub fn withdraw_miner_bond(&self) -> (r: Weight)
        ensures
            r == extrinsic_weight(self.db, 55_000_000, 6_500, 2, 2),
    {
        weigh(self.db, 55_000_000, 6_500, 2, 2)
    }

    pub fn register_validator(&self) -> (r: Weight)
        ensures
            r == extrinsic_weight(self.db, 70_000_000, 7_000, 3, 3),
    {
        weigh(self.db, 70_000_000, 7_000, 3, 3)
    }

    pub fn deactivate_validator(&self) -> (r: Weight)
        ensures
            r == extrinsic_weight(self.db, 45_000_000, 5_000, 2, 1),
    {
        weigh(self.db, 45_000_000, 5_000, 2, 1)
    }

    pub fn withdraw_validator_stake(&self) -> (r: Weight)
        ensures
            r == extrinsic_weight(self.db, 55_000_000, 6_500, 2, 2),
    {
        weigh(self.db, 55_000_000, 6_500, 2, 2)
    }

    pub fn submit_proof(&self) -> (r: Weight)
        ensures
            r == extrinsic_weight(self.db, 85_000_000, 10_000, 14, 12),
    {
        weigh(self.db, 85_000_000, 10_000, 14, 12)
    }

    pub fn slash_miner(&self) -> (r: Weight)
        ensures
            r == extrinsic_weight(self.db, 75_000_000, 7_000, 3, 3),
    {
        weigh(self.db, 75_000_000, 7_000, 3, 3)
    }

    pub fn slash_validator(&self) -> (r: Weight)
        ensures
            r == extrinsic_weight(self.db, 75_000_000, 7_000, 3, 3),
    {
        weigh(self.db, 75_000_000, 7_000, 3, 3)
    }

    pub fn request_inference(&self) -> (r: Weight)
        ensures
            r == extrinsic_weight(self.db, 50_000_000, 7_000, 25, 6),
    {
        weigh(self.db, 50_000_000, 7_000, 25, 6)
    }

    pub fn cancel_inference(&self) -> (r: Weight)
        ensures
            r == extrinsic_weight(self.db, 45_000_000, 6_500, 4, 4),
    {
        weigh(self.db, 45_000_000, 6_500, 4, 4)
    }
}

/// Weights only grow with the database costs: a dearer read and write never make an extrinsic
/// lighter.
pub proof fn lemma_extrinsic_weight_monotone(
    cheap: RuntimeDbWeight,
    dear: RuntimeDbWeight,
    ref_time: u64,
    proof_size: u64,
    reads: u64,
    writes: u64,
)
    requires
        cheap.read <= dear.read,
        cheap.write <= dear.write,
    ensures
        extrinsic_weight(cheap, ref_time, proof_size, reads, writes).ref_time <= extrinsic_weight(
            dear,
            ref_time,
            proof_size,
            reads,
            writes,
        ).ref_time,
        extrinsic_weight(cheap, ref_time, proof_size, reads, writes).proof_size == proof_size,
        extrinsic_weight(dear, ref_time, proof_size, reads, writes).proof_size == proof_size,
{
    assert(cheap.read * reads <= dear.read * reads) by (nonlinear_arith)
        requires
            cheap.read <= dear.read,
    ;
    assert(cheap.write * writes <= dear.write * writes) by (nonlinear_arith)
        requires
            cheap.write <= dear.write,
    ;
}

/// Without saturation an extrinsic weighs its base time plus each read's and each write's
/// cost, and its proof size is its base proof size.
pub proof fn lemma_extrinsic_weight_adds_costs(
    db: RuntimeDbWeight,
    ref_time: u64,
    proof_size: u64,
    reads: u64,
    writes: u64,
)
    requires
        ref_time + db.read * reads + db.write * writes <= u64::MAX,
    ensures
        extrinsic_weight(db, ref_time, proof_size, reads, writes).ref_time == ref_time + db.read * reads
            + db.write * writes,
        extrinsic_weight(db, ref_time, proof_size, reads, writes).proof_size == proof_size,
{
    assert(0 <= db.read * reads && 0 <= db.write * writes) by (nonlinear_arith);
}

} // verus!
