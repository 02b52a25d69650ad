//! Rebuilding the registry's routing indexes, as the runtime does on an upgrade: every subnet's
//! index is rebuilt from the registry in identifier order, participants with pending requests
//! offered first; participants that find their index full are counted as failures, and those
//! among them that are active and idle start exiting.
use vstd::prelude::*;

use std::collections::BTreeMap;

use crate::chain::{sorted_ids, ChainMigrationHealth};
use crate::registry::{
    ids_in_order, index_of, pending_of, stored_ids, stored_index, ChainMiner, ChainRegistry,
    ChainValidator,
};
use crate::routing::{
    admitted_ids, candidate_ids, lemma_admitted_shape, lemma_rebuild_partitions_offers,
    overflowed_ids, overflowed_participant_status, rebuild_subnet_routing_index, routing_order,
    spec_overflowed_status, RoutingCandidate,
};
use crate::{Balance, BlockNumber, MinerId, RegistryStatus, SubnetId, ValidatorId};

verus! {

broadcast use {vstd::std_specs::btree::group_btree_axioms, vstd::laws_cmp::group_laws_cmp};

/// `n`, saturating at `u32::MAX`.
pub open spec fn saturate_u32(n: nat) -> u32 {
    if n > u32::MAX {
        u32::MAX
    } else {
        n as u32
    }
}

/// Every subnet's index in `indexes` is sorted and holds what an index of `capacity` entries
/// admits from `candidates`, pending participants first.
pub open spec fn rebuilt_indexes(
    indexes: Map<SubnetId, Vec<u64>>,
    candidates: Seq<RoutingCandidate>,
    capacity: u32,
) -> bool {
    forall|s: SubnetId|
        #![trigger index_of(indexes, s)]
        sorted_ids(index_of(indexes, s)) && index_of(indexes, s).to_multiset() == admitted_ids(
            routing_order(candidates, s),
            capacity,
        ).to_multiset()
}

proof fn lemma_no_candidates(c: Seq<RoutingCandidate>, s: SubnetId, pending: bool)
    requires
        forall|k: int| 0 <= k < c.len() ==> (#[trigger] c[k]).subnet_id != s,
    ensures
        candidate_ids(c, s, pending) == Seq::<u64>::empty(),
    decreases c.len(),
{
    if c.len() > 0 {
        lemma_no_candidates(c.drop_last(), s, pending);
    }
}

proof fn lemma_same_multiset_contains(a: Seq<u64>, b: Seq<u64>, x: u64)
    requires
        a.to_multiset() == b.to_multiset(),
    ensures
        a.contains(x) == b.contains(x),
{
    a.to_multiset_ensures();
    b.to_multiset_ensures();
    assert(a.contains(x) <==> a.to_multiset().count(x) > 0);
    assert(b.contains(x) <==> b.to_multiset().count(x) > 0);
}

fn rebuild_index_map(candidates: &Vec<RoutingCandidate>, capacity: u32) -> (r: BTreeMap<SubnetId, Vec<u64>>)
    ensures
        rebuilt_indexes(r@, candidates@, capacity),
{
    let mut map: BTreeMap<SubnetId, Vec<u64>> = BTreeMap::new();
    let mut i: usize = 0;
    while i < candidates.len()
        invariant
            0 <= i <= candidates@.len(),
            forall|s: SubnetId| #[trigger] map@.contains_key(s) ==> sorted_ids(map@[s]@) && map@[s]@.to_multiset()
                == admitted_ids(routing_order(candidates@, s), capacity).to_multiset(),
            forall|k: int| 0 <= k < i ==> map@.contains_key((#[trigger] candidates@[k]).subnet_id),
        decreases candidates@.len() - i,
    {
        let s = candidates[i].subnet_id;
        if !map.contains_key(&s) {
            let rebuilt = rebuild_subnet_routing_index(candidates, s, capacity);
            map.insert(s, rebuilt.index);
        }
        i = i + 1;
    }
    proof {
        assert forall|s: SubnetId|
            #![trigger index_of(map@, s)]
            sorted_ids(index_of(map@, s)) && index_of(map@, s).to_multiset() == admitted_ids(
                routing_order(candidates@, s),
                capacity,
            ).to_multiset() by {
            if !map@.contains_key(s) {
                lemma_no_candidates(candidates@, s, true);
                lemma_no_candidates(candidates@, s, false);
                assert(routing_order(candidates@, s) =~= Seq::<u64>::empty());
                assert(admitted_ids(Seq::<u64>::empty(), capacity) =~= Seq::<u64>::empty());
                assert(index_of(map@, s) =~= Seq::<u64>::empty());
            }
        }
    }
    map
}

proof fn lemma_candidate_ids_member(c: Seq<RoutingCandidate>, s: SubnetId, p: bool, x: u64)
    ensures
        candidate_ids(c, s, p).contains(x) <==> exists|k: int|
            0 <= k < c.len() && (#[trigger] c[k]).id == x && c[k].eligible && c[k].subnet_id == s
                && c[k].pending == p,
    decreases c.len(),
{
    if c.len() > 0 {
        let d = c.drop_last();
        lemma_candidate_ids_member(d, s, p, x);
        let last = c.last();
        if candidate_ids(c, s, p).contains(x) {
            if candidate_ids(d, s, p).contains(x) {
                let k = choose|k: int|
                    0 <= k < d.len() && (#[trigger] d[k]).id == x && d[k].eligible && d[k].subnet_id == s
                        && d[k].pending == p;
                assert(c[k] == d[k]);
            } else {
                assert(c[c.len() - 1] == last);
            }
        }
        if exists|k: int|
            0 <= k < c.len() && (#[trigger] c[k]).id == x && c[k].eligible && c[k].subnet_id == s
                && c[k].pending == p {
            let k = choose|k: int|
                0 <= k < c.len() && (#[trigger] c[k]).id == x && c[k].eligible && c[k].subnet_id == s
                    && c[k].pending == p;
            if k < c.len() - 1 {
                assert(d[k] == c[k]);
                assert(candidate_ids(d, s, p).contains(x));
                let prev = candidate_ids(d, s, p);
                let i = choose|i: int| 0 <= i < prev.len() && prev[i] == x;
                if last.eligible && last.subnet_id == s && last.pending == p {
                    assert(prev.push(last.id)[i] == x);
                }
            } else {
                let prev = candidate_ids(d, s, p);
                assert(prev.push(last.id)[prev.len() as int] == x);
            }
        }
    }
}

/// What a rebuilt index `idx` of subnet `s` holds: eligible candidates of `s` only, and every
/// eligible candidate of `s` unless it is full.
proof fn lemma_rebuilt_index_facts(c: Seq<RoutingCandidate>, s: SubnetId, capacity: u32, idx: Seq<u64>)
    requires
        idx.to_multiset() == admitted_ids(routing_order(c, s), capacity).to_multiset(),
    ensures
        forall|x: u64| #[trigger] idx.contains(x) <==> admitted_ids(routing_order(c, s), capacity).contains(x),
        forall|x: u64| #[trigger] idx.contains(x) ==> exists|k: int|
            0 <= k < c.len() && (#[trigger] c[k]).id == x && c[k].eligible && c[k].subnet_id == s,
        forall|k: int|
            0 <= k < c.len() && (#[trigger] c[k]).eligible && c[k].subnet_id == s ==> idx.contains(c[k].id)
                || idx.len() >= capacity,
{
    let order = routing_order(c, s);
    let adm = admitted_ids(order, capacity);
    lemma_admitted_shape(order, capacity);
    lemma_rebuild_partitions_offers(order, capacity);
    idx.to_multiset_ensures();
    adm.to_multiset_ensures();
    assert forall|x: u64| #[trigger] idx.contains(x) <==> adm.contains(x) by {
        lemma_same_multiset_contains(idx, adm, x);
    }
    assert forall|x: u64| #[trigger] idx.contains(x) implies exists|k: int|
        0 <= k < c.len() && (#[trigger] c[k]).id == x && c[k].eligible && c[k].subnet_id == s by {
        assert(adm.contains(x));
        assert(order.contains(x));
        let i = choose|i: int| 0 <= i < order.len() && order[i] == x;
        let pend = candidate_ids(c, s, true);
        if i < pend.len() {
            assert(pend[i] == x);
            lemma_candidate_ids_member(c, s, true, x);
        } else {
            let rest = candidate_ids(c, s, false);
            assert(rest[i - pend.len()] == x);
            lemma_candidate_ids_member(c, s, false, x);
        }
    }
    assert forall|k: int| 0 <= k < c.len() && (#[trigger] c[k]).eligible && c[k].subnet_id == s implies idx.contains(
        c[k].id,
    ) || idx.len() >= capacity by {
        let x = c[k].id;
        lemma_candidate_ids_member(c, s, c[k].pending, x);
        let ids = candidate_ids(c, s, c[k].pending);
        assert(ids.contains(x));
        let i = choose|i: int| 0 <= i < ids.len() && ids[i] == x;
        let pend = candidate_ids(c, s, true);
        let rest = candidate_ids(c, s, false);
        if c[k].pending {
            assert(order[i] == x);
        } else {
            assert(order[pend.len() + i] == x);
        }
        assert(order.contains(x));
        if !adm.contains(x) {
            assert(overflowed_ids(order, capacity).contains(x));
            assert(overflowed_ids(order, capacity).len() > 0);
            assert(idx.len() == adm.len());
        }
    }
}

impl ChainRegistry {
    /// Miner `id` as the rebuild sees it: eligible when active with its identity recorded,
    /// pending when it has pending requests.
    pub open spec fn miner_candidate(a: ChainRegistry, id: MinerId) -> RoutingCandidate {
        RoutingCandidate {
            id,
            subnet_id: a.miners@[id].subnet_id,
            eligible: a.miners@[id].status == RegistryStatus::Active && a.miner_identities@.contains_key(id),
            pending: pending_of(a.pending_miner_requests@, id) > 0,
        }
    }

    /// Validator `id` as the rebuild sees it: eligible when active with a stake record of at
    /// least `min_stake` and its identity recorded, pending when it has pending requests.
    pub open spec fn validator_candidate(a: ChainRegistry, id: ValidatorId, min_stake: Balance) -> RoutingCandidate {
        RoutingCandidate {
            id,
            subnet_id: a.validators@[id].subnet_id,
            eligible: a.validators@[id].status == RegistryStatus::Active && a.validator_stakes@.contains_key(id)
                && a.validator_stakes@[id] >= min_stake && a.validator_identities@.contains_key(id),
            pending: pending_of(a.pending_validator_requests@, id) > 0,
        }
    }

    /// The registered miners as the rebuild sees them, in identifier order.
    pub open spec fn miner_candidates(a: ChainRegistry) -> Seq<RoutingCandidate> {
        ids_in_order(a.miners@.dom()).map_values(|id: MinerId| Self::miner_candidate(a, id))
    }

    /// The registered validators as the rebuild sees them, in identifier order.
    pub open spec fn validator_candidates(a: ChainRegistry, min_stake: Balance) -> Seq<RoutingCandidate> {
        ids_in_order(a.validators@.dom()).map_values(
            |id: ValidatorId| Self::validator_candidate(a, id, min_stake),
        )
    }

    /// Miner `id` is eligible but its subnet's rebuilt index, of `capacity` entries, has no
    /// room for it.
    pub open spec fn miner_overflowed(a: ChainRegistry, capacity: u32, id: MinerId) -> bool {
        &&& Self::miner_candidate(a, id).eligible
        &&& !admitted_ids(routing_order(Self::miner_candidates(a), a.miners@[id].subnet_id), capacity).contains(id)
    }

    /// Validator `id` is eligible but its subnet's rebuilt index, of `capacity` entries, has no
    /// room for it.
    pub open spec fn validator_overflowed(a: ChainRegistry, capacity: u32, min_stake: Balance, id: ValidatorId) -> bool {
        &&& Self::validator_candidate(a, id, min_stake).eligible
        &&& !admitted_ids(
            routing_order(Self::validator_candidates(a, min_stake), a.validators@[id].subnet_id),
            capacity,
        ).contains(id)
    }

    /// Miner `id` after the rebuild: an overflowed miner that is active and idle starts
    /// exiting `cooldown_blocks` after `now`.
    pub open spec fn rebuilt_miner(
        a: ChainRegistry,
        capacity: u32,
        id: MinerId,
        now: BlockNumber,
        cooldown_blocks: BlockNumber,
    ) -> ChainMiner {
        if Self::miner_overflowed(a, capacity, id) {
            ChainMiner {
                status: spec_overflowed_status(
                    a.miners@[id].status,
                    pending_of(a.pending_miner_requests@, id),
                    now,
                    cooldown_blocks,
                ),
                ..a.miners@[id]
            }
        } else {
            a.miners@[id]
        }
    }

    /// Validator `id` after the rebuild: an overflowed validator that is active and idle starts
    /// exiting `cooldown_blocks` after `now`.
    pub open spec fn rebuilt_validator(
        a: ChainRegistry,
        capacity: u32,
        min_stake: Balance,
        id: ValidatorId,
        now: BlockNumber,
        cooldown_blocks: BlockNumber,
    ) -> ChainValidator {
        if Self::validator_overflowed(a, capacity, min_stake, id) {
            ChainValidator {
                status: spec_overflowed_status(
                    a.validators@[id].status,
                    pending_of(a.pending_validator_requests@, id),
                    now,
                    cooldown_blocks,
                ),
                ..a.validators@[id]
            }
        } else {
            a.validators@[id]
        }
    }

    /// How many miners overflow their rebuilt index.
    pub open spec fn miner_overflow_count(a: ChainRegistry, capacity: u32) -> nat {
        ids_in_order(a.miners@.dom()).filter(|id: MinerId| Self::miner_overflowed(a, capacity, id)).len()
    }

    /// How many validators overflow their rebuilt index.
    pub open spec fn validator_overflow_count(a: ChainRegistry, capacity: u32, min_stake: Balance) -> nat {
        ids_in_order(a.validators@.dom()).filter(
            |id: ValidatorId| Self::validator_overflowed(a, capacity, min_stake, id),
        ).len()
    }

    /// Everything the rebuild leaves alone agrees between `a` and `b`.
    pub open spec fn same_outside_routing(a: ChainRegistry, b: ChainRegistry) -> bool {
        &&& b.miner_bonds@ == a.miner_bonds@
        &&& b.validator_stakes@ == a.validator_stakes@
        &&& b.total_burned == a.total_burned
        &&& b.subnets@ == a.subnets@
        &&& b.miner_identities@ == a.miner_identities@
        &&& b.validator_identities@ == a.validator_identities@
        &&& b.pending_miner_requests@ == a.pending_miner_requests@
        &&& b.pending_validator_requests@ == a.pending_validator_requests@
        &&& b.proof_records@ == a.proof_records@
        &&& b.totals == a.totals
        &&& b.requests@ == a.requests@
        &&& b.status_counts == a.status_counts
        &&& b.next_request_id == a.next_request_id
        &&& Self::same_counts(a, b)
    }

    fn miner_candidate_list(&self, ids: &Vec<MinerId>) -> (r: Vec<RoutingCandidate>)
        requires
            ids@ == ids_in_order(self.miners@.dom()),
            ids@.to_set() == self.miners@.dom(),
        ensures
            r@ == Self::miner_candidates(*self),
    {
        let mut r: Vec<RoutingCandidate> = Vec::new();
        let mut i: usize = 0;
        while i < ids.len()
            invariant
                0 <= i <= ids@.len(),
                ids@.to_set() == self.miners@.dom(),
                r@ == ids@.take(i as int).map_values(|id: MinerId| Self::miner_candidate(*self, id)),
            decreases ids@.len() - i,
        {
            let id = ids[i];
            assert(ids@.to_set().contains(id)) by {
                assert(ids@[i as int] == id);
            }
            let m = *self.miners.get(&id).unwrap();
            let pending: u32 = match self.pending_miner_requests.get(&id) {
                Some(c) => *c,
                None => 0,
            };
            r.push(
                RoutingCandidate {
                    id,
                    subnet_id: m.subnet_id,
                    eligible: m.status == RegistryStatus::Active && self.miner_identities.contains_key(&id),
                    pending: pending > 0,
                },
            );
            proof {
                assert(r@ =~= ids@.take(i + 1).map_values(|id: MinerId| Self::miner_candidate(*self, id)));
            }
            i = i + 1;
        }
        proof {
            assert(ids@.take(ids@.len() as int) =~= ids@);
        }
        r
    }

    fn validator_candidate_list(&self, ids: &Vec<ValidatorId>, min_stake: Balance) -> (r: Vec<RoutingCandidate>)
        requires
            ids@ == ids_in_order(self.validators@.dom()),
            ids@.to_set() == self.validators@.dom(),
        ensures
            r@ == Self::validator_candidates(*self, min_stake),
    {
        let mut r: Vec<RoutingCandidate> = Vec::new();
        let mut i: usize = 0;
        while i < ids.len()
            invariant
                0 <= i <= ids@.len(),
                ids@.to_set() == self.validators@.dom(),
                r@ == ids@.take(i as int).map_values(
                    |id: ValidatorId| Self::validator_candidate(*self, id, min_stake),
                ),
            decreases ids@.len() - i,
        {
            let id = ids[i];
            assert(ids@.to_set().contains(id)) by {
                assert(ids@[i as int] == id);
            }
            let v = *self.validators.get(&id).unwrap();
            let pending: u32 = match self.pending_validator_requests.get(&id) {
                Some(c) => *c,
                None => 0,
            };
            let staked = match self.validator_stakes.get(&id) {
                Some(stake) => *stake >= min_stake,
                None => false,
            };
            r.push(
                RoutingCandidate {
                    id,
                    subnet_id: v.subnet_id,
                    eligible: v.status == RegistryStatus::Active && staked
                        && self.validator_identities.contains_key(&id),
                    pending: pending > 0,
                },
            );
            proof {
                assert(r@ =~= ids@.take(i + 1).map_values(
                    |id: ValidatorId| Self::validator_candidate(*self, id, min_stake),
                ));
            }
            i = i + 1;
        }
        proof {
            assert(ids@.take(ids@.len() as int) =~= ids@);
        }
        r
    }
}

impl ChainRegistry {
    fn demote_overflowed_miners(
        &mut self,
        ids: &Vec<MinerId>,
        index: &BTreeMap<SubnetId, Vec<u64>>,
        capacity: u32,
        now: BlockNumber,
        cooldown_blocks: BlockNumber,
        failures: u32,
    ) -> (r: u32)
        requires
            ids@ == ids_in_order(old(self).miners@.dom()),
            ids@.to_set() == old(self).miners@.dom(),
            ids@.no_duplicates(),
            rebuilt_indexes(index@, Self::miner_candidates(*old(self)), capacity),
        ensures
            r == saturate_u32((failures + Self::miner_overflow_count(*old(self), capacity)) as nat),
            final(self).miners@.dom() == old(self).miners@.dom(),
            forall|id: MinerId| #[trigger] old(self).miners@.contains_key(id) ==> final(self).miners@[id]
                == Self::rebuilt_miner(*old(self), capacity, id, now, cooldown_blocks),
            Self::same_outside_routing(*old(self), *final(self)),
            final(self).validators@ == old(self).validators@,
            final(self).active_miners@ == old(self).active_miners@,
            final(self).active_validators@ == old(self).active_validators@,
            final(self).health == old(self).health,
    {
        let ghost a = *self;
        let ghost overflowed = |id: MinerId| Self::miner_overflowed(a, capacity, id);
        let mut count: u32 = failures;
        let mut i: usize = 0;
        proof {
            assert(ids@.take(0).filter(overflowed) =~= Seq::<MinerId>::empty());
        }
        while i < ids.len()
            invariant
                0 <= i <= ids@.len(),
                ids@.to_set() == a.miners@.dom(),
                ids@.no_duplicates(),
                rebuilt_indexes(index@, Self::miner_candidates(a), capacity),
                overflowed == (|id: MinerId| Self::miner_overflowed(a, capacity, id)),
                count == saturate_u32((failures + ids@.take(i as int).filter(overflowed).len()) as nat),
                self.miners@.dom() == a.miners@.dom(),
                forall|k: int| 0 <= k < i ==> self.miners@[#[trigger] ids@[k]] == Self::rebuilt_miner(
                    a,
                    capacity,
                    ids@[k],
                    now,
                    cooldown_blocks,
                ),
                forall|k: int| i <= k < ids@.len() ==> self.miners@[#[trigger] ids@[k]] == a.miners@[ids@[k]],
                Self::same_outside_routing(a, *self),
                self.validators@ == a.validators@,
                self.active_miners@ == a.active_miners@,
                self.active_validators@ == a.active_validators@,
                self.health == a.health,
            decreases ids@.len() - i,
        {
            let id = ids[i];
            assert(ids@.to_set().contains(id)) by {
                assert(ids@[i as int] == id);
            }
            let m = *self.miners.get(&id).unwrap();
            let eligible = m.status == RegistryStatus::Active && self.miner_identities.contains_key(&id);
            let mut spilled = false;
            if eligible {
                let (listed, len) = stored_index(index, m.subnet_id, id);
                proof {
                    lemma_same_multiset_contains(
                        index_of(index@, m.subnet_id),
                        admitted_ids(routing_order(Self::miner_candidates(a), m.subnet_id), capacity),
                        id,
                    );
                }
                spilled = !listed;
            }
            proof {
                assert(spilled == Self::miner_overflowed(a, capacity, id));
                reveal_with_fuel(Seq::<MinerId>::filter, 1);
                assert(ids@.take(i + 1).drop_last() =~= ids@.take(i as int));
            }
            if spilled {
                count = if count == u32::MAX {
                    count
                } else {
                    count + 1
                };
                let pending: u32 = match self.pending_miner_requests.get(&id) {
                    Some(c) => *c,
                    None => 0,
                };
                let status = overflowed_participant_status(m.status, pending, now, cooldown_blocks);
                self.miners.insert(id, ChainMiner { status, ..m });
            }
            proof {
                assert forall|k: int| 0 <= k < i + 1 implies self.miners@[#[trigger] ids@[k]]
                    == Self::rebuilt_miner(a, capacity, ids@[k], now, cooldown_blocks) by {
                    if k < i {
                        assert(ids@[k] != id);
                    }
                }
                assert forall|k: int| i + 1 <= k < ids@.len() implies self.miners@[#[trigger] ids@[k]]
                    == a.miners@[ids@[k]] by {
                    assert(ids@[k] != id);
                }
            }
            i = i + 1;
        }
        proof {
            assert(ids@.take(ids@.len() as int) =~= ids@);
            assert forall|id: MinerId| #[trigger] a.miners@.contains_key(id) implies self.miners@[id]
                == Self::rebuilt_miner(a, capacity, id, now, cooldown_blocks) by {
                assert(ids@.to_set().contains(id));
                let k = choose|k: int| 0 <= k < ids@.len() && ids@[k] == id;
            }
        }
        count
    }

    fn demote_overflowed_validators(
        &mut self,
        ids: &Vec<ValidatorId>,
        index: &BTreeMap<SubnetId, Vec<u64>>,
        capacity: u32,
        min_stake: Balance,
        now: BlockNumber,
        cooldown_blocks: BlockNumber,
        failures: u32,
    ) -> (r: u32)
        requires
            ids@ == ids_in_order(old(self).validators@.dom()),
            ids@.to_set() == old(self).validators@.dom(),
            ids@.no_duplicates(),
            rebuilt_indexes(index@, Self::validator_candidates(*old(self), min_stake), capacity),
        ensures
            r == saturate_u32((failures + Self::validator_overflow_count(*old(self), capacity, min_stake)) as nat),
            final(self).validators@.dom() == old(self).validators@.dom(),
            forall|id: ValidatorId| #[trigger] old(self).validators@.contains_key(id) ==> final(self).validators@[id]
                == Self::rebuilt_validator(*old(self), capacity, min_stake, id, now, cooldown_blocks),
            Self::same_outside_routing(*old(self), *final(self)),
            final(self).miners@ == old(self).miners@,
            final(self).active_miners@ == old(self).active_miners@,
            final(self).active_validators@ == old(self).active_validators@,
            final(self).health == old(self).health,
    {
        let ghost a = *self;
        let ghost overflowed = |id: ValidatorId| Self::validator_overflowed(a, capacity, min_stake, id);
        let mut count: u32 = failures;
        let mut i: usize = 0;
        proof {
            assert(ids@.take(0).filter(overflowed) =~= Seq::<ValidatorId>::empty());
        }
        while i < ids.len()
            invariant
                0 <= i <= ids@.len(),
                ids@.to_set() == a.validators@.dom(),
                ids@.no_duplicates(),
                rebuilt_indexes(index@, Self::validator_candidates(a, min_stake), capacity),
                overflowed == (|id: ValidatorId| Self::validator_overflowed(a, capacity, min_stake, id)),
                count == saturate_u32((failures + ids@.take(i as int).filter(overflowed).len()) as nat),
                self.validators@.dom() == a.validators@.dom(),
                forall|k: int| 0 <= k < i ==> self.validators@[#[trigger] ids@[k]] == Self::rebuilt_validator(
                    a,
                    capacity,
                    min_stake,
                    ids@[k],
                    now,
                    cooldown_blocks,
                ),
                forall|k: int| i <= k < ids@.len() ==> self.validators@[#[trigger] ids@[k]] == a.validators@[ids@[k]],
                Self::same_outside_routing(a, *self),
                self.miners@ == a.miners@,
                self.active_miners@ == a.active_miners@,
                self.active_validators@ == a.active_validators@,
                self.health == a.health,
            decreases ids@.len() - i,
        {
            let id = ids[i];
            assert(ids@.to_set().contains(id)) by {
                assert(ids@[i as int] == id);
            }
            let m = *self.validators.get(&id).unwrap();
            let staked = match self.validator_stakes.get(&id) {
                Some(stake) => *stake >= min_stake,
                None => false,
            };
            let eligible = m.status == RegistryStatus::Active && staked
                && self.validator_identities.contains_key(&id);
            let mut spilled = false;
            if eligible {
                let (listed, len) = stored_index(index, m.subnet_id, id);
                proof {
                    lemma_same_multiset_contains(
                        index_of(index@, m.subnet_id),
                        admitted_ids(routing_order(Self::validator_candidates(a, min_stake), m.subnet_id), capacity),
                        id,
                    );
                }
                spilled = !listed;
            }
            proof {
                assert(spilled == Self::validator_overflowed(a, capacity, min_stake, id));
                reveal_with_fuel(Seq::<ValidatorId>::filter, 1);
                assert(ids@.take(i + 1).drop_last() =~= ids@.take(i as int));
            }
            if spilled {
                count = if count == u32::MAX {
                    count
                } else {
                    count + 1
                };
                let pending: u32 = match self.pending_validator_requests.get(&id) {
                    Some(c) => *c,
                    None => 0,
                };
                let status = overflowed_participant_status(m.status, pending, now, cooldown_blocks);
                self.validators.insert(id, ChainValidator { status, ..m });
            }
            proof {
                assert forall|k: int| 0 <= k < i + 1 implies self.validators@[#[trigger] ids@[k]]
                    == Self::rebuilt_validator(a, capacity, min_stake, ids@[k], now, cooldown_blocks) by {
                    if k < i {
                        assert(ids@[k] != id);
                    }
                }
                assert forall|k: int| i + 1 <= k < ids@.len() implies self.validators@[#[trigger] ids@[k]]
                    == a.validators@[ids@[k]] by {
                    assert(ids@[k] != id);
                }
            }
            i = i + 1;
        }
        proof {
            assert(ids@.take(ids@.len() as int) =~= ids@);
            assert forall|id: ValidatorId| #[trigger] a.validators@.contains_key(id) implies self.validators@[id]
                == Self::rebuilt_validator(a, capacity, min_stake, id, now, cooldown_blocks) by {
                assert(ids@.to_set().contains(id));
                let k = choose|k: int| 0 <= k < ids@.len() && ids@[k] == id;
            }
        }
        count
    }
}

impl ChainRegistry {
    /// Rebuilds every subnet's routing indexes from the registry, as the runtime does on an
    /// upgrade: each index takes, in identifier order and pending participants first, the
    /// eligible participants of its subnet while it has room (`miner_capacity` miners,
    /// `validator_capacity` validators; validators need a stake record of at least
    /// `min_validator_stake`). Participants that find their index full are counted, the count
    /// is recorded as the routing-index migration failures and returned, and those among them
    /// that are active and idle start exiting after their cooldown from `now`. The rebuilt
    /// indexes pass the index part of the consistency check, and a well-formed registry passes
    /// the whole check after the rebuild. Capital commitments are left as they are: the caller
    /// recomputes those of the participants whose status changed.
    pub fn rebuild_routing_indexes(
        &mut self,
        miner_capacity: u32,
        validator_capacity: u32,
        min_validator_stake: Balance,
        now: BlockNumber,
        miner_cooldown_blocks: BlockNumber,
        validator_cooldown_blocks: BlockNumber,
    ) -> (r: u32)
        ensures
            r == saturate_u32(
                Self::miner_overflow_count(*old(self), miner_capacity) + Self::validator_overflow_count(
                    *old(self),
                    validator_capacity,
                    min_validator_stake,
                ),
            ),
            rebuilt_indexes(final(self).active_miners@, Self::miner_candidates(*old(self)), miner_capacity),
            rebuilt_indexes(
                final(self).active_validators@,
                Self::validator_candidates(*old(self), min_validator_stake),
                validator_capacity,
            ),
            final(self).miners@.dom() == old(self).miners@.dom(),
            forall|id: MinerId| #[trigger] old(self).miners@.contains_key(id) ==> final(self).miners@[id]
                == Self::rebuilt_miner(*old(self), miner_capacity, id, now, miner_cooldown_blocks),
            final(self).validators@.dom() == old(self).validators@.dom(),
            forall|id: ValidatorId| #[trigger] old(self).validators@.contains_key(id)
                ==> final(self).validators@[id] == Self::rebuilt_validator(
                *old(self),
                validator_capacity,
                min_validator_stake,
                id,
                now,
                validator_cooldown_blocks,
            ),
            final(self).health == (ChainMigrationHealth {
                legacy_routing_index_failures: r,
                ..old(self).health
            }),
            Self::same_outside_routing(*old(self), *final(self)),
            old(self).wf() ==> final(self).wf(),
            Self::miner_indexes_sound(*final(self)),
            Self::miner_indexes_complete(*final(self), miner_capacity),
            Self::validator_indexes_sound(*final(self), min_validator_stake),
            Self::validator_indexes_complete(*final(self), validator_capacity, min_validator_stake),
            old(self).wf() ==> Self::spec_registry_consistent(
                *final(self),
                miner_capacity,
                validator_capacity,
                min_validator_stake,
            ),
    {
        let ghost a = *self;
        let miner_ids = stored_ids(&self.miners);
        let validator_ids = stored_ids(&self.validators);
        let miner_candidates = self.miner_candidate_list(&miner_ids);
        let validator_candidates = self.validator_candidate_list(&validator_ids, min_validator_stake);
        let miner_index = rebuild_index_map(&miner_candidates, miner_capacity);
        let validator_index = rebuild_index_map(&validator_candidates, validator_capacity);
        let miner_failures = self.demote_overflowed_miners(
            &miner_ids,
            &miner_index,
            miner_capacity,
            now,
            miner_cooldown_blocks,
            0,
        );
        let ghost after_miners = *self;
        proof {
            assert(Self::validator_candidates(after_miners, min_validator_stake)
                =~= Self::validator_candidates(a, min_validator_stake));
            assert forall|id: ValidatorId| #[trigger] a.validators@.contains_key(id) implies Self::rebuilt_validator(
                after_miners,
                validator_capacity,
                min_validator_stake,
                id,
                now,
                validator_cooldown_blocks,
            ) == Self::rebuilt_validator(
                a,
                validator_capacity,
                min_validator_stake,
                id,
                now,
                validator_cooldown_blocks,
            ) by {
                assert(Self::validator_candidate(after_miners, id, min_validator_stake)
                    == Self::validator_candidate(a, id, min_validator_stake));
            }
            assert(Self::validator_overflow_count(after_miners, validator_capacity, min_validator_stake)
                == Self::validator_overflow_count(a, validator_capacity, min_validator_stake)) by {
                let p1 = |id: ValidatorId|
                    Self::validator_overflowed(after_miners, validator_capacity, min_validator_stake, id);
                let p2 = |id: ValidatorId|
                    Self::validator_overflowed(a, validator_capacity, min_validator_stake, id);
                assert forall|id: ValidatorId| #[trigger] p1(id) == p2(id) by {
                    assert(Self::validator_candidate(after_miners, id, min_validator_stake)
                        == Self::validator_candidate(a, id, min_validator_stake));
                }
                assert(p1 =~= p2);
                assert(ids_in_order(after_miners.validators@.dom()).filter(
                    |id: ValidatorId| Self::validator_overflowed(after_miners, validator_capacity, min_validator_stake, id),
                ) =~= ids_in_order(a.validators@.dom()).filter(
                    |id: ValidatorId| Self::validator_overflowed(a, validator_capacity, min_validator_stake, id),
                ));
            }
        }
        let failures = self.demote_overflowed_validators(
            &validator_ids,
            &validator_index,
            validator_capacity,
            min_validator_stake,
            now,
            validator_cooldown_blocks,
            miner_failures,
        );
        self.active_miners = miner_index;
        self.active_validators = validator_index;
        self.health.legacy_routing_index_failures = failures;
        proof {
            Self::lemma_rebuilt_miners_consistent(a, *self, miner_capacity, now, miner_cooldown_blocks);
            Self::lemma_rebuilt_validators_consistent(
                a,
                *self,
                validator_capacity,
                min_validator_stake,
                now,
                validator_cooldown_blocks,
            );
            if a.wf() {
                assert forall|id: MinerId| #[trigger] self.pending_miner_requests@.contains_key(id) implies {
                    &&& self.pending_miner_requests@[id] > 0
                    &&& self.miners@.contains_key(id)
                    &&& crate::registry::may_hold_assignments(self.miners@[id].status)
                } by {
                    assert(a.pending_miner_requests@.contains_key(id));
                    assert(pending_of(a.pending_miner_requests@, id) > 0);
                }
                assert forall|id: ValidatorId| #[trigger] self.pending_validator_requests@.contains_key(id) implies {
                    &&& self.pending_validator_requests@[id] > 0
                    &&& self.validators@.contains_key(id)
                    &&& crate::registry::may_hold_assignments(self.validators@[id].status)
                } by {
                    assert(a.pending_validator_requests@.contains_key(id));
                    assert(pending_of(a.pending_validator_requests@, id) > 0);
                }
                Self::lemma_wf_counters_consistent(*self);
            }
        }
        failures
    }
}

impl ChainRegistry {
    proof fn lemma_rebuilt_miners_consistent(
        a: ChainRegistry,
        b: ChainRegistry,
        capacity: u32,
        now: BlockNumber,
        cooldown_blocks: BlockNumber,
    )
        requires
            ids_in_order(a.miners@.dom()).to_set() == a.miners@.dom(),
            rebuilt_indexes(b.active_miners@, Self::miner_candidates(a), capacity),
            b.miners@.dom() == a.miners@.dom(),
            forall|id: MinerId| #[trigger] a.miners@.contains_key(id) ==> b.miners@[id]
                == Self::rebuilt_miner(a, capacity, id, now, cooldown_blocks),
            b.miner_identities@ == a.miner_identities@,
        ensures
            Self::miner_indexes_sound(b),
            Self::miner_indexes_complete(b, capacity),
    {
        let c = Self::miner_candidates(a);
        let ids = ids_in_order(a.miners@.dom());
        assert forall|s: SubnetId, k: int|
            b.active_miners@.contains_key(s) && 0 <= k < b.active_miners@[s]@.len()
                implies Self::miner_routable_in(b, s, #[trigger] b.active_miners@[s]@[k]) by {
            let idx = index_of(b.active_miners@, s);
            lemma_rebuilt_index_facts(c, s, capacity, idx);
            let x = idx[k];
            assert(idx.contains(x));
            let j = choose|j: int|
                0 <= j < c.len() && (#[trigger] c[j]).id == x && c[j].eligible && c[j].subnet_id == s;
            assert(c[j] == Self::miner_candidate(a, ids[j]));
            assert(ids.to_set().contains(ids[j])) by {
                assert(ids.contains(ids[j]));
            }
            assert(!Self::miner_overflowed(a, capacity, x));
        }
        assert forall|id: MinerId| #[trigger] b.miners@.contains_key(id) implies (Self::miner_routable_in(
            b,
            b.miners@[id].subnet_id,
            id,
        ) ==> index_of(b.active_miners@, b.miners@[id].subnet_id).contains(id) || index_of(
            b.active_miners@,
            b.miners@[id].subnet_id,
        ).len() >= capacity) by {
            if Self::miner_routable_in(b, b.miners@[id].subnet_id, id) {
                let s = a.miners@[id].subnet_id;
                assert(b.miners@[id].subnet_id == s);
                assert(ids.to_set().contains(id));
                let j = choose|j: int| 0 <= j < ids.len() && ids[j] == id;
                assert(c[j] == Self::miner_candidate(a, id));
                assert(c[j].eligible);
                lemma_rebuilt_index_facts(c, s, capacity, index_of(b.active_miners@, s));
            }
        }
    }

    proof fn lemma_rebuilt_validators_consistent(
        a: ChainRegistry,
        b: ChainRegistry,
        capacity: u32,
        min_stake: Balance,
        now: BlockNumber,
        cooldown_blocks: BlockNumber,
    )
        requires
            ids_in_order(a.validators@.dom()).to_set() == a.validators@.dom(),
            rebuilt_indexes(b.active_validators@, Self::validator_candidates(a, min_stake), capacity),
            b.validators@.dom() == a.validators@.dom(),
            forall|id: ValidatorId| #[trigger] a.validators@.contains_key(id) ==> b.validators@[id]
                == Self::rebuilt_validator(a, capacity, min_stake, id, now, cooldown_blocks),
            b.validator_identities@ == a.validator_identities@,
            b.validator_stakes@ == a.validator_stakes@,
        ensures
            Self::validator_indexes_sound(b, min_stake),
            Self::validator_indexes_complete(b, capacity, min_stake),
    {
        let c = Self::validator_candidates(a, min_stake);
        let ids = ids_in_order(a.validators@.dom());
        assert forall|s: SubnetId, k: int|
            b.active_validators@.contains_key(s) && 0 <= k < b.active_validators@[s]@.len()
                implies Self::validator_routable_in(b, s, #[trigger] b.active_validators@[s]@[k], min_stake) by {
            let idx = index_of(b.active_validators@, s);
            lemma_rebuilt_index_facts(c, s, capacity, idx);
            let x = idx[k];
            assert(idx.contains(x));
            let j = choose|j: int|
                0 <= j < c.len() && (#[trigger] c[j]).id == x && c[j].eligible && c[j].subnet_id == s;
            assert(c[j] == Self::validator_candidate(a, ids[j], min_stake));
            assert(ids.to_set().contains(ids[j])) by {
                assert(ids.contains(ids[j]));
            }
            assert(!Self::validator_overflowed(a, capacity, min_stake, x));
        }
        assert forall|id: ValidatorId| #[trigger] b.validators@.contains_key(id) implies (
        Self::validator_routable_in(b, b.validators@[id].subnet_id, id, min_stake) ==> index_of(
            b.active_validators@,
            b.validators@[id].subnet_id,
        ).contains(id) || index_of(b.active_validators@, b.validators@[id].subnet_id).len()
            >= capacity) by {
            if Self::validator_routable_in(b, b.validators@[id].subnet_id, id, min_stake) {
                let s = a.validators@[id].subnet_id;
                assert(b.validators@[id].subnet_id == s);
                assert(ids.to_set().contains(id));
                let j = choose|j: int| 0 <= j < ids.len() && ids[j] == id;
                assert(c[j] == Self::validator_candidate(a, id, min_stake));
                assert(c[j].eligible);
                lemma_rebuilt_index_facts(c, s, capacity, index_of(b.active_validators@, s));
            }
        }
    }
}

} // verus!
