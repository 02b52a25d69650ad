//! The registry's upgrade consistency check: whether the routing indexes list exactly the
//! participants the route scan may pick (up to a full index), whether every pending-request
//! counter is positive and names a participant that may hold assignments, and whether the
//! status counters count the stored requests.
use vstd::prelude::*;

use crate::chain::{
    count_of, count_request_statuses, saturate_u64, status_count, InferenceRequestStatus,
};
use crate::registry::{
    index_of, stored_index, stored_keys, tally, ChainInferenceRequest, ChainRegistry,
};
use crate::{Balance, MinerId, RegistryStatus, RequestId, SubnetId, ValidatorId};

verus! {

broadcast use {
    vstd::std_specs::btree::group_btree_axioms,
    vstd::laws_cmp::group_laws_cmp,
    vstd::seq_lib::seq_to_set_is_finite,
};

/// Whether a participant with `status` may hold a pending-request counter in a consistent
/// registry: it is active, slashed or exiting.
pub open spec fn counter_status_allowed(status: RegistryStatus) -> bool {
    status == RegistryStatus::Active || status == RegistryStatus::Slashed || status is Exiting
}

proof fn lemma_status_count_of_keys(
    m: Map<RequestId, ChainInferenceRequest>,
    ks: Seq<RequestId>,
    which: InferenceRequestStatus,
)
    requires
        ks.no_duplicates(),
    ensures
        status_count(ks.map_values(|k: RequestId| m[k].status), which) == ks.to_set().filter(
            |k: RequestId| m[k].status == which,
        ).len(),
    decreases ks.len(),
{
    let f = |k: RequestId| m[k].status;
    let p = |k: RequestId| m[k].status == which;
    if ks.len() == 0 {
        assert(ks.to_set().filter(p) =~= Set::<RequestId>::empty());
    } else {
        let prev = ks.drop_last();
        let x = ks.last();
        assert(prev.no_duplicates()) by {
            assert forall|i: int, j: int| 0 <= i < prev.len() && 0 <= j < prev.len() && i != j implies prev[i]
                != prev[j] by {
                assert(prev[i] == ks[i] && prev[j] == ks[j]);
            }
        }
        lemma_status_count_of_keys(m, prev, which);
        assert(ks.map_values(f).drop_last() =~= prev.map_values(f));
        assert(ks.to_set() =~= prev.to_set().insert(x)) by {
            assert forall|y: RequestId| ks.to_set().contains(y) <==> prev.to_set().insert(x).contains(y) by {
                if ks.contains(y) && y != x {
                    let i = choose|i: int| 0 <= i < ks.len() && ks[i] == y;
                    assert(i < ks.len() - 1);
                    assert(prev[i] == y);
                }
                if prev.contains(y) {
                    let i = choose|i: int| 0 <= i < prev.len() && prev[i] == y;
                    assert(ks[i] == y);
                }
                if y == x {
                    assert(ks[ks.len() - 1] == x);
                }
            }
        }
        assert(!prev.to_set().contains(x)) by {
            if prev.contains(x) {
                let i = choose|i: int| 0 <= i < prev.len() && prev[i] == x;
                assert(ks[i] == ks[ks.len() - 1]);
            }
        }
        let pf = prev.to_set().filter(p);
        if p(x) {
            assert(ks.to_set().filter(p) =~= pf.insert(x));
        } else {
            assert(ks.to_set().filter(p) =~= pf);
        }
    }
}

impl ChainRegistry {
    /// The status counters equal the tally of the stored requests by status, each saturating
    /// at `u64::MAX`.
    pub open spec fn status_counts_match(a: ChainRegistry) -> bool {
        forall|which: InferenceRequestStatus|
            #[trigger] count_of(a.status_counts, which) == saturate_u64(tally(a.requests@, which))
    }

    fn check_status_counts(&self) -> (r: bool)
        ensures
            r == Self::status_counts_match(*self),
    {
        let ids = stored_keys(&self.requests);
        let mut statuses: Vec<InferenceRequestStatus> = Vec::new();
        let mut i: usize = 0;
        while i < ids.len()
            invariant
                0 <= i <= ids@.len(),
                ids@.to_set() == self.requests@.dom(),
                statuses@ == ids@.take(i as int).map_values(|k: RequestId| self.requests@[k].status),
            decreases ids@.len() - i,
        {
            let id = ids[i];
            assert(ids@.to_set().contains(id)) by {
                assert(ids@[i as int] == id);
            }
            let st = match self.requests.get(&id) {
                Some(q) => q.status,
                None => InferenceRequestStatus::Pending,
            };
            statuses.push(st);
            proof {
                assert(statuses@ =~= ids@.take(i + 1).map_values(
                    |k: RequestId| self.requests@[k].status,
                ));
            }
            i = i + 1;
        }
        let counts = count_request_statuses(&statuses);
        proof {
            assert(ids@.take(ids@.len() as int) =~= ids@);
            assert forall|which: InferenceRequestStatus|
                status_count(statuses@, which) == #[trigger] tally(self.requests@, which) by {
                lemma_status_count_of_keys(self.requests@, ids@, which);
            }
            assert forall|which: InferenceRequestStatus|
                #[trigger] count_of(counts, which) == saturate_u64(tally(self.requests@, which)) by {
                assert(status_count(statuses@, which) == tally(self.requests@, which));
            }
            assert(count_of(counts, InferenceRequestStatus::Pending) == counts.pending);
            assert(count_of(counts, InferenceRequestStatus::Settled) == counts.settled);
            assert(count_of(counts, InferenceRequestStatus::Cancelled) == counts.cancelled);
            assert(count_of(counts, InferenceRequestStatus::Rejected) == counts.rejected);
            assert(count_of(counts, InferenceRequestStatus::Expired) == counts.expired);
            assert(count_of(self.status_counts, InferenceRequestStatus::Pending) == self.status_counts.pending);
            assert(count_of(self.status_counts, InferenceRequestStatus::Settled) == self.status_counts.settled);
            assert(count_of(self.status_counts, InferenceRequestStatus::Cancelled) == self.status_counts.cancelled);
            assert(count_of(self.status_counts, InferenceRequestStatus::Rejected) == self.status_counts.rejected);
            assert(count_of(self.status_counts, InferenceRequestStatus::Expired) == self.status_counts.expired);
        }
        counts.pending == self.status_counts.pending && counts.settled == self.status_counts.settled
            && counts.cancelled == self.status_counts.cancelled && counts.rejected
            == self.status_counts.rejected && counts.expired == self.status_counts.expired
    }
}

impl ChainRegistry {
    /// Every pending-request counter of a miner is positive and names a registered miner that
    /// is active, slashed or exiting.
    pub open spec fn miner_counters_sound(a: ChainRegistry) -> bool {
        forall|id: MinerId| #[trigger] a.pending_miner_requests@.contains_key(id) ==> {
            &&& a.pending_miner_requests@[id] > 0
            &&& a.miners@.contains_key(id)
            &&& counter_status_allowed(a.miners@[id].status)
        }
    }

    /// Every pending-request counter of a validator is positive and names a registered
    /// validator that is active, slashed or exiting.
    pub open spec fn validator_counters_sound(a: ChainRegistry) -> bool {
        forall|id: ValidatorId| #[trigger] a.pending_validator_requests@.contains_key(id) ==> {
            &&& a.pending_validator_requests@[id] > 0
            &&& a.validators@.contains_key(id)
            &&& counter_status_allowed(a.validators@[id].status)
        }
    }

    fn check_miner_counters(&self) -> (r: bool)
        ensures
            r == Self::miner_counters_sound(*self),
    {
        let ids = stored_keys(&self.pending_miner_requests);
        let mut i: usize = 0;
        while i < ids.len()
            invariant
                0 <= i <= ids@.len(),
                ids@.to_set() == self.pending_miner_requests@.dom(),
                forall|j: int| 0 <= j < i ==> {
                    let id = #[trigger] ids@[j];
                    &&& self.pending_miner_requests@[id] > 0
                    &&& self.miners@.contains_key(id)
                    &&& counter_status_allowed(self.miners@[id].status)
                },
            decreases ids@.len() - i,
        {
            let id = ids[i];
            assert(ids@.to_set().contains(id)) by {
                assert(ids@[i as int] == id);
            }
            let count: u32 = *self.pending_miner_requests.get(&id).unwrap();
            let ok = count > 0 && match self.miners.get(&id) {
                Some(m) => match m.status {
                    RegistryStatus::Active | RegistryStatus::Slashed | RegistryStatus::Exiting { .. } => true,
                    _ => false,
                },
                None => false,
            };
            if !ok {
                return false;
            }
            i = i + 1;
        }
        proof {
            assert forall|id: MinerId| #[trigger] self.pending_miner_requests@.contains_key(id) implies {
                &&& self.pending_miner_requests@[id] > 0
                &&& self.miners@.contains_key(id)
                &&& counter_status_allowed(self.miners@[id].status)
            } by {
                assert(ids@.to_set().contains(id));
                let j = choose|j: int| 0 <= j < ids@.len() && ids@[j] == id;
            }
        }
        true
    }

    fn check_validator_counters(&self) -> (r: bool)
        ensures
            r == Self::validator_counters_sound(*self),
    {
        let ids = stored_keys(&self.pending_validator_requests);
        let mut i: usize = 0;
        while i < ids.len()
            invariant
                0 <= i <= ids@.len(),
                ids@.to_set() == self.pending_validator_requests@.dom(),
                forall|j: int| 0 <= j < i ==> {
                    let id = #[trigger] ids@[j];
                    &&& self.pending_validator_requests@[id] > 0
                    &&& self.validators@.contains_key(id)
                    &&& counter_status_allowed(self.validators@[id].status)
                },
            decreases ids@.len() - i,
        {
            let id = ids[i];
            assert(ids@.to_set().contains(id)) by {
                assert(ids@[i as int] == id);
            }
            let count: u32 = *self.pending_validator_requests.get(&id).unwrap();
            let ok = count > 0 && match self.validators.get(&id) {
                Some(v) => match v.status {
                    RegistryStatus::Active | RegistryStatus::Slashed | RegistryStatus::Exiting { .. } => true,
                    _ => false,
                },
                None => false,
            };
            if !ok {
                return false;
            }
            i = i + 1;
        }
        proof {
            assert forall|id: ValidatorId| #[trigger] self.pending_validator_requests@.contains_key(id) implies {
                &&& self.pending_validator_requests@[id] > 0
                &&& self.validators@.contains_key(id)
                &&& counter_status_allowed(self.validators@[id].status)
            } by {
                assert(ids@.to_set().contains(id));
                let j = choose|j: int| 0 <= j < ids@.len() && ids@[j] == id;
            }
        }
        true
    }
}

impl ChainRegistry {
    /// Miner `id` may be routed in subnet `subnet_id`: it is registered there, active, and
    /// has its identity recorded.
    pub open spec fn miner_routable_in(a: ChainRegistry, subnet_id: SubnetId, id: MinerId) -> bool {
        &&& a.miners@.contains_key(id)
        &&& a.miners@[id].subnet_id == subnet_id
        &&& a.miners@[id].status == RegistryStatus::Active
        &&& a.miner_identities@.contains_key(id)
    }

    /// Validator `id` may be routed in subnet `subnet_id`: it is registered there, active,
    /// holds a stake record of at least `min_stake`, and has its identity recorded.
    pub open spec fn validator_routable_in(
        a: ChainRegistry,
        subnet_id: SubnetId,
        id: ValidatorId,
        min_stake: Balance,
    ) -> bool {
        &&& a.validators@.contains_key(id)
        &&& a.validators@[id].subnet_id == subnet_id
        &&& a.validators@[id].status == RegistryStatus::Active
        &&& a.validator_stakes@.contains_key(id)
        &&& a.validator_stakes@[id] >= min_stake
        &&& a.validator_identities@.contains_key(id)
    }

    /// Every miner listed by a subnet's routing index may be routed there.
    pub open spec fn miner_indexes_sound(a: ChainRegistry) -> bool {
        forall|s: SubnetId, k: int|
            a.active_miners@.contains_key(s) && 0 <= k < a.active_miners@[s]@.len()
                ==> Self::miner_routable_in(a, s, #[trigger] a.active_miners@[s]@[k])
    }

    /// Every validator listed by a subnet's routing index may be routed there.
    pub open spec fn validator_indexes_sound(a: ChainRegistry, min_stake: Balance) -> bool {
        forall|s: SubnetId, k: int|
            a.active_validators@.contains_key(s) && 0 <= k < a.active_validators@[s]@.len()
                ==> Self::validator_routable_in(a, s, #[trigger] a.active_validators@[s]@[k], min_stake)
    }

    /// Every miner that may be routed in its subnet is listed by that subnet's index, unless
    /// the index holds `capacity` miners already.
    pub open spec fn miner_indexes_complete(a: ChainRegistry, capacity: u32) -> bool {
        forall|id: MinerId| #[trigger] a.miners@.contains_key(id) ==> (Self::miner_routable_in(
            a,
            a.miners@[id].subnet_id,
            id,
        ) ==> index_of(a.active_miners@, a.miners@[id].subnet_id).contains(id) || index_of(
            a.active_miners@,
            a.miners@[id].subnet_id,
        ).len() >= capacity)
    }

    /// Every validator that may be routed in its subnet is listed by that subnet's index,
    /// unless the index holds `capacity` validators already.
    pub open spec fn validator_indexes_complete(a: ChainRegistry, capacity: u32, min_stake: Balance) -> bool {
        forall|id: ValidatorId| #[trigger] a.validators@.contains_key(id) ==> (
        Self::validator_routable_in(a, a.validators@[id].subnet_id, id, min_stake) ==> index_of(
            a.active_validators@,
            a.validators@[id].subnet_id,
        ).contains(id) || index_of(a.active_validators@, a.validators@[id].subnet_id).len()
            >= capacity)
    }

    fn check_miner_indexes_sound(&self) -> (r: bool)
        ensures
            r == Self::miner_indexes_sound(*self),
    {
        let subnets = stored_keys(&self.active_miners);
        let mut i: usize = 0;
        while i < subnets.len()
            invariant
                0 <= i <= subnets@.len(),
                subnets@.to_set() == self.active_miners@.dom(),
                forall|j: int, k: int|
                    0 <= j < i && 0 <= k < self.active_miners@[subnets@[j]]@.len()
                        ==> Self::miner_routable_in(*self, subnets@[j], #[trigger] self.active_miners@[subnets@[j]]@[k]),
            decreases subnets@.len() - i,
        {
            let s = subnets[i];
            assert(subnets@.to_set().contains(s)) by {
                assert(subnets@[i as int] == s);
            }
            let ids = self.active_miners.get(&s).unwrap();
            let mut k: usize = 0;
            while k < ids.len()
                invariant
                    0 <= k <= ids@.len(),
                    self.active_miners@.contains_key(s),
                    ids@ == self.active_miners@[s]@,
                    forall|q: int| 0 <= q < k ==> Self::miner_routable_in(*self, s, #[trigger] ids@[q]),
                decreases ids@.len() - k,
            {
                let id = ids[k];
                let ok = match self.miners.get(&id) {
                    Some(m) => m.subnet_id == s && m.status == RegistryStatus::Active
                        && self.miner_identities.contains_key(&id),
                    None => false,
                };
                if !ok {
                    proof {
                        assert(!Self::miner_routable_in(*self, s, self.active_miners@[s]@[k as int]));
                    }
                    return false;
                }
                k = k + 1;
            }
            i = i + 1;
        }
        proof {
            assert forall|s: SubnetId, k: int|
                self.active_miners@.contains_key(s) && 0 <= k < self.active_miners@[s]@.len()
                    implies Self::miner_routable_in(*self, s, #[trigger] self.active_miners@[s]@[k]) by {
                assert(subnets@.to_set().contains(s));
                let j = choose|j: int| 0 <= j < subnets@.len() && subnets@[j] == s;
                assert(Self::miner_routable_in(*self, subnets@[j], self.active_miners@[subnets@[j]]@[k]));
            }
        }
        true
    }

    fn check_validator_indexes_sound(&self, min_stake: Balance) -> (r: bool)
        ensures
            r == Self::validator_indexes_sound(*self, min_stake),
    {
        let subnets = stored_keys(&self.active_validators);
        let mut i: usize = 0;
        while i < subnets.len()
            invariant
                0 <= i <= subnets@.len(),
                subnets@.to_set() == self.active_validators@.dom(),
                forall|j: int, k: int|
                    0 <= j < i && 0 <= k < self.active_validators@[subnets@[j]]@.len()
                        ==> Self::validator_routable_in(*self, subnets@[j], #[trigger] self.active_validators@[subnets@[j]]@[k], min_stake),
            decreases subnets@.len() - i,
        {
            let s = subnets[i];
            assert(subnets@.to_set().contains(s)) by {
                assert(subnets@[i as int] == s);
            }
            let ids = self.active_validators.get(&s).unwrap();
            let mut k: usize = 0;
            while k < ids.len()
                invariant
                    0 <= k <= ids@.len(),
                    self.active_validators@.contains_key(s),
                    ids@ == self.active_validators@[s]@,
                    forall|q: int| 0 <= q < k ==> Self::validator_routable_in(*self, s, #[trigger] ids@[q], min_stake),
                decreases ids@.len() - k,
            {
                let id = ids[k];
                let ok = match self.validators.get(&id) {
                    Some(v) => {
                        let staked = match self.validator_stakes.get(&id) {
                            Some(stake) => *stake >= min_stake,
                            None => false,
                        };
                        v.subnet_id == s && v.status == RegistryStatus::Active && staked
                            && self.validator_identities.contains_key(&id)
                    },
                    None => false,
                };
                if !ok {
                    proof {
                        assert(!Self::validator_routable_in(*self, s, self.active_validators@[s]@[k as int], min_stake));
                    }
                    return false;
                }
                k = k + 1;
            }
            i = i + 1;
        }
        proof {
            assert forall|s: SubnetId, k: int|
                self.active_validators@.contains_key(s) && 0 <= k < self.active_validators@[s]@.len()
                    implies Self::validator_routable_in(*self, s, #[trigger] self.active_validators@[s]@[k], min_stake) by {
                assert(subnets@.to_set().contains(s));
                let j = choose|j: int| 0 <= j < subnets@.len() && subnets@[j] == s;
                assert(Self::validator_routable_in(*self, subnets@[j], self.active_validators@[subnets@[j]]@[k], min_stake));
            }
        }
        true
    }

    fn check_miner_indexes_complete(&self, capacity: u32) -> (r: bool)
        ensures
            r == Self::miner_indexes_complete(*self, capacity),
    {
        let ids = stored_keys(&self.miners);
        let mut i: usize = 0;
        while i < ids.len()
            invariant
                0 <= i <= ids@.len(),
                ids@.to_set() == self.miners@.dom(),
                forall|j: int| 0 <= j < i ==> {
                    let id = #[trigger] ids@[j];
                    Self::miner_routable_in(*self, self.miners@[id].subnet_id, id) ==> index_of(
                        self.active_miners@,
                        self.miners@[id].subnet_id,
                    ).contains(id) || index_of(self.active_miners@, self.miners@[id].subnet_id).len()
                        >= capacity
                },
            decreases ids@.len() - i,
        {
            let id = ids[i];
            assert(ids@.to_set().contains(id)) by {
                assert(ids@[i as int] == id);
            }
            let m = *self.miners.get(&id).unwrap();
            if m.status == RegistryStatus::Active && self.miner_identities.contains_key(&id) {
                let (listed, len) = stored_index(&self.active_miners, m.subnet_id, id);
                if !listed && len < capacity as usize {
                    return false;
                }
            }
            i = i + 1;
        }
        proof {
            assert forall|id: MinerId| #[trigger] self.miners@.contains_key(id) implies (
            Self::miner_routable_in(*self, self.miners@[id].subnet_id, id) ==> index_of(
                self.active_miners@,
                self.miners@[id].subnet_id,
            ).contains(id) || index_of(self.active_miners@, self.miners@[id].subnet_id).len()
                >= capacity) by {
                assert(ids@.to_set().contains(id));
                let j = choose|j: int| 0 <= j < ids@.len() && ids@[j] == id;
            }
        }
        true
    }

    fn check_validator_indexes_complete(&self, capacity: u32, min_stake: Balance) -> (r: bool)
        ensures
            r == Self::validator_indexes_complete(*self, capacity, min_stake),
    {
        let ids = stored_keys(&self.validators);
        let mut i: usize = 0;
        while i < ids.len()
            invariant
                0 <= i <= ids@.len(),
                ids@.to_set() == self.validators@.dom(),
                forall|j: int| 0 <= j < i ==> {
                    let id = #[trigger] ids@[j];
                    Self::validator_routable_in(*self, self.validators@[id].subnet_id, id, min_stake)
                        ==> index_of(self.active_validators@, self.validators@[id].subnet_id).contains(id)
                        || index_of(self.active_validators@, self.validators@[id].subnet_id).len()
                        >= capacity
                },
            decreases ids@.len() - i,
        {
            let id = ids[i];
            assert(ids@.to_set().contains(id)) by {
                assert(ids@[i as int] == id);
            }
            let v = *self.validators.get(&id).unwrap();
            let staked = match self.validator_stakes.get(&id) {
                Some(stake) => *stake >= min_stake,
                None => false,
            };
            if v.status == RegistryStatus::Active && staked && self.validator_identities.contains_key(&id) {
                let (listed, len) = stored_index(&self.active_validators, v.subnet_id, id);
                if !listed && len < capacity as usize {
                    return false;
                }
            }
            i = i + 1;
        }
        proof {
            assert forall|id: ValidatorId| #[trigger] self.validators@.contains_key(id) implies (
            Self::validator_routable_in(*self, self.validators@[id].subnet_id, id, min_stake)
                ==> index_of(self.active_validators@, self.validators@[id].subnet_id).contains(id)
                || index_of(self.active_validators@, self.validators@[id].subnet_id).len()
                >= capacity) by {
                assert(ids@.to_set().contains(id));
                let j = choose|j: int| 0 <= j < ids@.len() && ids@[j] == id;
            }
        }
        true
    }

    /// The registry is consistent: its routing indexes list only participants that may be
    /// routed in their subnet and every such participant unless the index is full (an index
    /// holds at most `miner_capacity` miners or `validator_capacity` validators; validators
    /// need a stake record of at least `min_validator_stake`), every pending-request counter
    /// is positive and names an active, slashed or exiting participant, and the status
    /// counters count the stored requests.
    pub open spec fn spec_registry_consistent(
        a: ChainRegistry,
        miner_capacity: u32,
        validator_capacity: u32,
        min_validator_stake: Balance,
    ) -> bool {
        &&& Self::miner_indexes_sound(a)
        &&& Self::miner_indexes_complete(a, miner_capacity)
        &&& Self::validator_indexes_sound(a, min_validator_stake)
        &&& Self::validator_indexes_complete(a, validator_capacity, min_validator_stake)
        &&& Self::miner_counters_sound(a)
        &&& Self::validator_counters_sound(a)
        &&& Self::status_counts_match(a)
    }

    /// Checks the registry's consistency, as the runtime does after an upgrade.
    pub fn registry_consistent(
        &self,
        miner_capacity: u32,
        validator_capacity: u32,
        min_validator_stake: Balance,
    ) -> (r: bool)
        ensures
            r == Self::spec_registry_consistent(*self, miner_capacity, validator_capacity, min_validator_stake),
    {
        self.check_miner_indexes_sound() && self.check_miner_indexes_complete(miner_capacity)
            && self.check_validator_indexes_sound(min_validator_stake)
            && self.check_validator_indexes_complete(validator_capacity, min_validator_stake)
            && self.check_miner_counters() && self.check_validator_counters()
            && self.check_status_counts()
    }
}

impl ChainRegistry {
    /// A well-formed registry passes the counter parts of the consistency check: its
    /// pending-request counters are positive and name participants that may hold them, and
    /// its status counters count its requests.
    pub proof fn lemma_wf_counters_consistent(a: ChainRegistry)
        requires
            a.wf(),
        ensures
            Self::miner_counters_sound(a),
            Self::validator_counters_sound(a),
            Self::status_counts_match(a),
    {
        assert forall|which: InferenceRequestStatus|
            #[trigger] count_of(a.status_counts, which) == saturate_u64(tally(a.requests@, which)) by {
            assert(count_of(a.status_counts, which) == tally(a.requests@, which));
        }
    }
}

impl ChainRegistry {
    /// The consistency check refuses each kind of inconsistency on its own: an index listing a
    /// miner that is not an active, identity-bound miner of its subnet; a routable miner left
    /// out of an index with room; a pending-request counter that is zero or names a missing,
    /// pending or disabled participant; a status counter that differs from its tally.
    pub proof fn lemma_consistency_check_refuses(
        a: ChainRegistry,
        miner_capacity: u32,
        validator_capacity: u32,
        min_validator_stake: Balance,
        s: SubnetId,
        k: int,
        id: u64,
        which: InferenceRequestStatus,
    )
        ensures
            a.active_miners@.contains_key(s) && 0 <= k < a.active_miners@[s]@.len() && !({
                let listed = a.active_miners@[s]@[k];
                &&& a.miners@.contains_key(listed)
                &&& a.miners@[listed].subnet_id == s
                &&& a.miners@[listed].status == RegistryStatus::Active
                &&& a.miner_identities@.contains_key(listed)
            }) ==> !Self::spec_registry_consistent(a, miner_capacity, validator_capacity, min_validator_stake),
            a.miners@.contains_key(id) && a.miners@[id].status == RegistryStatus::Active
                && a.miner_identities@.contains_key(id) && !index_of(
                a.active_miners@,
                a.miners@[id].subnet_id,
            ).contains(id) && index_of(a.active_miners@, a.miners@[id].subnet_id).len() < miner_capacity
                ==> !Self::spec_registry_consistent(a, miner_capacity, validator_capacity, min_validator_stake),
            a.pending_miner_requests@.contains_key(id) && (a.pending_miner_requests@[id] == 0
                || !a.miners@.contains_key(id) || a.miners@[id].status == RegistryStatus::Pending
                || a.miners@[id].status == RegistryStatus::Disabled) ==> !Self::spec_registry_consistent(
                a,
                miner_capacity,
                validator_capacity,
                min_validator_stake,
            ),
            a.pending_validator_requests@.contains_key(id) && (a.pending_validator_requests@[id] == 0
                || !a.validators@.contains_key(id) || a.validators@[id].status == RegistryStatus::Pending
                || a.validators@[id].status == RegistryStatus::Disabled)
                ==> !Self::spec_registry_consistent(a, miner_capacity, validator_capacity, min_validator_stake),
            tally(a.requests@, which) <= u64::MAX && count_of(a.status_counts, which) != tally(a.requests@, which)
                ==> !Self::spec_registry_consistent(a, miner_capacity, validator_capacity, min_validator_stake),
    {
    }
}

} // verus!
