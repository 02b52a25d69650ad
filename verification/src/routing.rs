//! Routing of inference requests. A subnet keeps sorted indexes of its active miners and
//! validators; a request is assigned by scanning each index as a ring from a position derived
//! from the request id. Rebuilding an index from the registry puts participants with pending
//! requests in first, then the others, until the index is full; whoever does not fit overflows.
use vstd::prelude::*;

use crate::chain::{insert_sorted_id, insert_sorted_post, sorted_ids, RoutingIndexError};
use crate::{
    commitments_equal, BlockNumber, Commitment, MinerId, RegistryStatus, RequestId, SubnetId,
    ValidatorId,
};

verus! {

/// A registry entry as the routing rebuild sees it.
#[derive(Clone, Copy, Debug, PartialEq, Eq, Structural)]
pub struct RoutingCandidate {
    /// The miner or validator identifier.
    pub id: u64,
    /// The subnet the participant serves.
    pub subnet_id: SubnetId,
    /// Whether the participant may be routed to: active, with its signature bundle bound (and,
    /// for a validator, an active stake record).
    pub eligible: bool,
    /// Whether the participant still has pending assigned requests.
    pub pending: bool,
}

/// The identifiers of the eligible candidates of `subnet_id` whose pending flag is `pending`,
/// in registry order.
pub open spec fn candidate_ids(c: Seq<RoutingCandidate>, subnet_id: SubnetId, pending: bool) -> Seq<
    u64,
>
    decreases c.len(),
{
    if c.len() == 0 {
        Seq::empty()
    } else {
        let prev = candidate_ids(c.drop_last(), subnet_id, pending);
        let x = c.last();
        if x.eligible && x.subnet_id == subnet_id && x.pending == pending {
            prev.push(x.id)
        } else {
            prev
        }
    }
}

/// The order in which the rebuild offers identifiers to a subnet's index: pending first.
pub open spec fn routing_order(c: Seq<RoutingCandidate>, subnet_id: SubnetId) -> Seq<u64> {
    candidate_ids(c, subnet_id, true) + candidate_ids(c, subnet_id, false)
}

/// The identifiers an index of `capacity` entries admits from `order`, in order of admission:
/// each new identifier while there is room.
pub open spec fn admitted_ids(order: Seq<u64>, capacity: u32) -> Seq<u64>
    decreases order.len(),
{
    if order.len() == 0 {
        Seq::empty()
    } else {
        let prev = admitted_ids(order.drop_last(), capacity);
        let x = order.last();
        if prev.contains(x) || prev.len() + 1 > capacity {
            prev
        } else {
            prev.push(x)
        }
    }
}

/// The identifiers of `order` that find the index full, in order.
pub open spec fn overflowed_ids(order: Seq<u64>, capacity: u32) -> Seq<u64>
    decreases order.len(),
{
    if order.len() == 0 {
        Seq::empty()
    } else {
        let prev = admitted_ids(order.drop_last(), capacity);
        let rest = overflowed_ids(order.drop_last(), capacity);
        let x = order.last();
        if !prev.contains(x) && prev.len() + 1 > capacity {
            rest.push(x)
        } else {
            rest
        }
    }
}

/// A rebuilt routing index and the identifiers that did not fit.
pub struct RoutingRebuild {
    /// The sorted routing index.
    pub index: Vec<u64>,
    /// The identifiers that found the index full, in the order they were offered.
    pub overflow: Vec<u64>,
}

/// Offers `id` to the index built so far from `order`.
fn offer(index: &mut Vec<u64>, overflow: &mut Vec<u64>, id: u64, capacity: u32, Ghost(order): Ghost<
    Seq<u64>,
>)
    requires
        sorted_ids(old(index)@),
        old(index)@.to_multiset() == admitted_ids(order, capacity).to_multiset(),
        old(overflow)@ == overflowed_ids(order, capacity),
    ensures
        sorted_ids(final(index)@),
        final(index)@.to_multiset() == admitted_ids(order.push(id), capacity).to_multiset(),
        final(overflow)@ == overflowed_ids(order.push(id), capacity),
{
    let ghost before = index@;
    let ghost admitted = admitted_ids(order, capacity);
    proof {
        assert(order.push(id).drop_last() =~= order);
        before.to_multiset_ensures();
        admitted.to_multiset_ensures();
        assert(before.to_multiset().count(id) == admitted.to_multiset().count(id));
        assert(before.contains(id) == admitted.contains(id));
        assert(before.len() == admitted.len());
    }
    let r = insert_sorted_id(index, id, capacity, RoutingIndexError::TooManyActiveMiners);
    proof {
        assert(insert_sorted_post(before, index@, id, capacity, RoutingIndexError::TooManyActiveMiners, r));
    }
    match r {
        Ok(inserted) => {
            proof {
                if inserted {
                    admitted.to_multiset_ensures();
                }
            }
        },
        Err(_) => {
            overflow.push(id);
        },
    }
}

/// Rebuilds the routing index of `subnet_id` from the registry `candidates`, in registry order:
/// eligible participants with pending requests are offered first, then the other eligible ones;
/// the index keeps at most `capacity` distinct identifiers, sorted.
pub fn rebuild_subnet_routing_index(
    candidates: &Vec<RoutingCandidate>,
    subnet_id: SubnetId,
    capacity: u32,
) -> (r: RoutingRebuild)
    ensures
        sorted_ids(r.index@),
        r.index@.to_multiset() == admitted_ids(routing_order(candidates@, subnet_id), capacity).to_multiset(),
        r.overflow@ == overflowed_ids(routing_order(candidates@, subnet_id), capacity),
{
    let mut index: Vec<u64> = Vec::new();
    let mut overflow: Vec<u64> = Vec::new();
    let ghost c = candidates@;
    proof {
        assert(index@.to_multiset() =~= vstd::multiset::Multiset::<u64>::empty()) by {
            index@.to_multiset_ensures();
        }
        assert(c.take(0) =~= Seq::<RoutingCandidate>::empty());
    }
    let mut i: usize = 0;
    while i < candidates.len()
        invariant
            0 <= i <= c.len(),
            c == candidates@,
            sorted_ids(index@),
            index@.to_multiset() == admitted_ids(candidate_ids(c.take(i as int), subnet_id, true), capacity).to_multiset(),
            overflow@ == overflowed_ids(candidate_ids(c.take(i as int), subnet_id, true), capacity),
        decreases c.len() - i,
    {
        let x = candidates[i];
        proof {
            assert(c.take(i + 1).drop_last() =~= c.take(i as int));
            assert(c.take(i + 1).last() == x);
        }
        if x.eligible && x.subnet_id == subnet_id && x.pending {
            offer(&mut index, &mut overflow, x.id, capacity, Ghost(candidate_ids(c.take(i as int), subnet_id, true)));
        }
        i = i + 1;
    }
    let ghost pending_ids = candidate_ids(c, subnet_id, true);
    proof {
        assert(c.take(c.len() as int) =~= c);
        assert(pending_ids + candidate_ids(c.take(0), subnet_id, false) =~= pending_ids);
    }
    let mut j: usize = 0;
    while j < candidates.len()
        invariant
            0 <= j <= c.len(),
            c == candidates@,
            pending_ids == candidate_ids(c, subnet_id, true),
            sorted_ids(index@),
            index@.to_multiset() == admitted_ids(pending_ids + candidate_ids(c.take(j as int), subnet_id, false), capacity).to_multiset(),
            overflow@ == overflowed_ids(pending_ids + candidate_ids(c.take(j as int), subnet_id, false), capacity),
        decreases c.len() - j,
    {
        let x = candidates[j];
        let ghost so_far = pending_ids + candidate_ids(c.take(j as int), subnet_id, false);
        proof {
            assert(c.take(j + 1).drop_last() =~= c.take(j as int));
            assert(c.take(j + 1).last() == x);
        }
        if x.eligible && x.subnet_id == subnet_id && !x.pending {
            proof {
                assert(pending_ids + candidate_ids(c.take(j + 1), subnet_id, false) =~= so_far.push(x.id));
            }
            offer(&mut index, &mut overflow, x.id, capacity, Ghost(so_far));
        } else {
            proof {
                assert(pending_ids + candidate_ids(c.take(j + 1), subnet_id, false) =~= so_far);
            }
        }
        j = j + 1;
    }
    proof {
        assert(c.take(c.len() as int) =~= c);
    }
    RoutingRebuild { index, overflow }
}

/// The index never holds more than `capacity` identifiers, holds each at most once, and holds
/// only identifiers that were offered.
pub proof fn lemma_admitted_shape(order: Seq<u64>, capacity: u32)
    ensures
        admitted_ids(order, capacity).len() <= capacity,
        admitted_ids(order, capacity).no_duplicates(),
        forall|x: u64| #[trigger] admitted_ids(order, capacity).contains(x) ==> order.contains(x),
    decreases order.len(),
{
    if order.len() > 0 {
        let prev_order = order.drop_last();
        lemma_admitted_shape(prev_order, capacity);
        let prev = admitted_ids(prev_order, capacity);
        assert forall|x: u64| #[trigger] admitted_ids(order, capacity).contains(x) implies order.contains(
            x,
        ) by {
            if prev.contains(x) {
                let k = choose|k: int| 0 <= k < prev_order.len() && prev_order[k] == x;
                assert(order[k] == x);
            } else {
                assert(order[order.len() - 1] == x);
            }
        }
    }
}

/// Every offered identifier ends up either in the index or among the overflow, never both; and
/// something overflows only when the index is full.
pub proof fn lemma_rebuild_partitions_offers(order: Seq<u64>, capacity: u32)
    ensures
        forall|x: u64|
            #[trigger] order.contains(x) ==> admitted_ids(order, capacity).contains(x)
                || overflowed_ids(order, capacity).contains(x),
        forall|x: u64|
            #[trigger] overflowed_ids(order, capacity).contains(x) ==> !admitted_ids(
                order,
                capacity,
            ).contains(x),
        overflowed_ids(order, capacity).len() > 0 ==> admitted_ids(order, capacity).len()
            == capacity,
    decreases order.len(),
{
    lemma_admitted_shape(order, capacity);
    if order.len() > 0 {
        let prev_order = order.drop_last();
        lemma_rebuild_partitions_offers(prev_order, capacity);
        lemma_admitted_shape(prev_order, capacity);
        let prev = admitted_ids(prev_order, capacity);
        let last = order.last();
        assert forall|x: u64| #[trigger] order.contains(x) implies admitted_ids(
            order,
            capacity,
        ).contains(x) || overflowed_ids(order, capacity).contains(x) by {
            let k = choose|k: int| 0 <= k < order.len() && order[k] == x;
            let rest = overflowed_ids(prev_order, capacity);
            if k < order.len() - 1 {
                assert(prev_order[k] == x);
                assert(prev_order.contains(x));
                if prev.contains(x) {
                    let m = choose|m: int| 0 <= m < prev.len() && prev[m] == x;
                    assert(admitted_ids(order, capacity)[m] == x);
                } else {
                    let m = choose|m: int| 0 <= m < rest.len() && rest[m] == x;
                    assert(overflowed_ids(order, capacity)[m] == x);
                }
            } else if prev.contains(x) {
                assert(admitted_ids(order, capacity) == prev);
            } else if prev.len() + 1 > capacity {
                assert(overflowed_ids(order, capacity) == rest.push(x));
                assert(rest.push(x)[rest.len() as int] == x);
            } else {
                assert(admitted_ids(order, capacity) == prev.push(x));
                assert(prev.push(x)[prev.len() as int] == x);
            }
        }
        assert forall|x: u64| #[trigger] overflowed_ids(order, capacity).contains(x) implies !admitted_ids(
            order,
            capacity,
        ).contains(x) by {
            let rest = overflowed_ids(prev_order, capacity);
            if rest.contains(x) {
                if prev.len() + 1 > capacity || prev.contains(last) {
                    assert(admitted_ids(order, capacity) == prev);
                } else {
                    assert(overflowed_ids(order, capacity) == rest);
                    assert(rest.len() > 0);
                }
            } else {
                assert(x == last);
            }
        }
    }
}

/// Routable participants never displace pending ones: the index built from the pending
/// identifiers alone is a prefix, in order of admission, of the full rebuild; and once a pending
/// identifier overflows, no routable one gets in.
pub proof fn lemma_pending_first(pending: Seq<u64>, routable: Seq<u64>, capacity: u32)
    ensures
        admitted_ids(pending, capacity).is_prefix_of(admitted_ids(pending + routable, capacity)),
        overflowed_ids(pending, capacity).len() > 0 ==> admitted_ids(pending + routable, capacity)
            == admitted_ids(pending, capacity),
    decreases routable.len(),
{
    if routable.len() == 0 {
        assert(pending + routable =~= pending);
    } else {
        let shorter = routable.drop_last();
        lemma_pending_first(pending, shorter, capacity);
        assert((pending + routable).drop_last() =~= pending + shorter);
        lemma_rebuild_partitions_offers(pending, capacity);
        lemma_admitted_shape(pending + shorter, capacity);
    }
}

/// Whether some candidate with identifier `id` is eligible and serves `subnet_id`.
pub open spec fn indexable(c: Seq<RoutingCandidate>, subnet_id: SubnetId, id: u64) -> bool {
    exists|k: int|
        0 <= k < c.len() && (#[trigger] c[k]).id == id && c[k].eligible && c[k].subnet_id
            == subnet_id
}

/// The routing-index invariant the runtime checks after an upgrade: the index lists only
/// eligible participants of its subnet, and lists every one of them unless it is full.
pub open spec fn index_consistent(
    index: Seq<u64>,
    c: Seq<RoutingCandidate>,
    subnet_id: SubnetId,
    capacity: u32,
) -> bool {
    &&& forall|i: int| 0 <= i < index.len() ==> indexable(c, subnet_id, #[trigger] index[i])
    &&& forall|k: int|
        0 <= k < c.len() && (#[trigger] c[k]).eligible && c[k].subnet_id == subnet_id
            ==> index.contains(c[k].id) || index.len() >= capacity
}

/// Whether some candidate with identifier `id` is eligible and serves `subnet_id`.
fn find_indexable(candidates: &Vec<RoutingCandidate>, subnet_id: SubnetId, id: u64) -> (r: bool)
    ensures
        r == indexable(candidates@, subnet_id, id),
{
    let mut k: usize = 0;
    while k < candidates.len()
        invariant
            0 <= k <= candidates@.len(),
            forall|j: int|
                0 <= j < k ==> !((#[trigger] candidates@[j]).id == id && candidates@[j].eligible
                    && candidates@[j].subnet_id == subnet_id),
        decreases candidates@.len() - k,
    {
        let x = candidates[k];
        if x.id == id && x.eligible && x.subnet_id == subnet_id {
            return true;
        }
        k = k + 1;
    }
    false
}

/// Whether `index` lists `id`.
fn index_lists(index: &Vec<u64>, id: u64) -> (r: bool)
    ensures
        r == index@.contains(id),
{
    let mut i: usize = 0;
    while i < index.len()
        invariant
            0 <= i <= index@.len(),
            forall|j: int| 0 <= j < i ==> index@[j] != id,
        decreases index@.len() - i,
    {
        if index[i] == id {
            assert(index@[i as int] == id);
            return true;
        }
        i = i + 1;
    }
    false
}

/// Checks a stored routing index of `subnet_id` against the registry `candidates`, as the
/// runtime does after an upgrade.
pub fn routing_index_consistent(
    index: &Vec<u64>,
    candidates: &Vec<RoutingCandidate>,
    subnet_id: SubnetId,
    capacity: u32,
) -> (r: bool)
    ensures
        r == index_consistent(index@, candidates@, subnet_id, capacity),
{
    let mut i: usize = 0;
    while i < index.len()
        invariant
            0 <= i <= index@.len(),
            forall|j: int| 0 <= j < i ==> indexable(candidates@, subnet_id, #[trigger] index@[j]),
        decreases index@.len() - i,
    {
        if !find_indexable(candidates, subnet_id, index[i]) {
            return false;
        }
        i = i + 1;
    }
    let full = index.len() >= capacity as usize;
    let mut k: usize = 0;
    while k < candidates.len()
        invariant
            0 <= k <= candidates@.len(),
            full == (index@.len() >= capacity),
            forall|j: int| 0 <= j < index@.len() ==> indexable(candidates@, subnet_id, #[trigger] index@[j]),
            forall|j: int|
                0 <= j < k && (#[trigger] candidates@[j]).eligible && candidates@[j].subnet_id
                    == subnet_id ==> index@.contains(candidates@[j].id) || index@.len() >= capacity,
        decreases candidates@.len() - k,
    {
        let x = candidates[k];
        if x.eligible && x.subnet_id == subnet_id && !full && !index_lists(index, x.id) {
            return false;
        }
        k = k + 1;
    }
    true
}

proof fn lemma_candidate_ids_indexable(c: Seq<RoutingCandidate>, subnet_id: SubnetId, pending: bool)
    ensures
        forall|x: u64|
            #[trigger] candidate_ids(c, subnet_id, pending).contains(x) ==> indexable(c, subnet_id, x),
        forall|k: int|
            0 <= k < c.len() && (#[trigger] c[k]).eligible && c[k].subnet_id == subnet_id
                && c[k].pending == pending ==> candidate_ids(c, subnet_id, pending).contains(c[k].id),
    decreases c.len(),
{
    if c.len() > 0 {
        let prev = c.drop_last();
        lemma_candidate_ids_indexable(prev, subnet_id, pending);
        let ids = candidate_ids(c, subnet_id, pending);
        let prev_ids = candidate_ids(prev, subnet_id, pending);
        assert forall|x: u64| #[trigger] ids.contains(x) implies indexable(c, subnet_id, x) by {
            if prev_ids.contains(x) {
                let k = choose|k: int|
                    0 <= k < prev.len() && (#[trigger] prev[k]).id == x && prev[k].eligible
                        && prev[k].subnet_id == subnet_id;
                assert(c[k] == prev[k]);
            } else {
                assert(c[c.len() - 1].id == x);
            }
        }
        assert forall|k: int|
            0 <= k < c.len() && (#[trigger] c[k]).eligible && c[k].subnet_id == subnet_id
                && c[k].pending == pending implies ids.contains(c[k].id) by {
            if k < c.len() - 1 {
                assert(prev[k] == c[k]);
                assert(prev_ids.contains(c[k].id));
                let m = choose|m: int| 0 <= m < prev_ids.len() && prev_ids[m] == c[k].id;
                assert(ids[m] == c[k].id);
            } else {
                assert(ids[prev_ids.len() as int] == c[k].id);
            }
        }
    }
}

/// A rebuilt routing index satisfies the invariant the runtime checks after an upgrade.
pub proof fn lemma_rebuild_is_consistent(
    index: Seq<u64>,
    c: Seq<RoutingCandidate>,
    subnet_id: SubnetId,
    capacity: u32,
)
    requires
        index.to_multiset() == admitted_ids(routing_order(c, subnet_id), capacity).to_multiset(),
    ensures
        index_consistent(index, c, subnet_id, capacity),
{
    let order = routing_order(c, subnet_id);
    let pending = candidate_ids(c, subnet_id, true);
    let routable = candidate_ids(c, subnet_id, false);
    let admitted = admitted_ids(order, capacity);
    lemma_admitted_shape(order, capacity);
    lemma_rebuild_partitions_offers(order, capacity);
    lemma_candidate_ids_indexable(c, subnet_id, true);
    lemma_candidate_ids_indexable(c, subnet_id, false);
    index.to_multiset_ensures();
    admitted.to_multiset_ensures();
    assert forall|i: int| 0 <= i < index.len() implies indexable(c, subnet_id, #[trigger] index[i]) by {
        let x = index[i];
        assert(index.contains(x));
        assert(index.to_multiset().count(x) > 0);
        assert(admitted.contains(x));
        assert(order.contains(x));
        let k = choose|k: int| 0 <= k < order.len() && order[k] == x;
        if k < pending.len() {
            assert(pending[k] == x);
            assert(pending.contains(x));
        } else {
            assert(routable[k - pending.len()] == x);
            assert(routable.contains(x));
        }
    }
    assert forall|k: int|
        0 <= k < c.len() && (#[trigger] c[k]).eligible && c[k].subnet_id == subnet_id implies index.contains(
        c[k].id,
    ) || index.len() >= capacity by {
        let x = c[k].id;
        if c[k].pending {
            let m = choose|m: int| 0 <= m < pending.len() && pending[m] == x;
            assert(order[m] == x);
        } else {
            let m = choose|m: int| 0 <= m < routable.len() && routable[m] == x;
            assert(order[pending.len() + m] == x);
        }
        assert(order.contains(x));
        if admitted.contains(x) {
            assert(admitted.to_multiset().count(x) > 0);
        }
    }
}

/// The status of a participant that overflowed its routing index: an active one without
/// pending requests starts exiting, its exit available `cooldown_blocks` from `current`
/// (saturating); any other keeps its status.
pub open spec fn spec_overflowed_status(
    status: RegistryStatus,
    pending_requests: u32,
    current: BlockNumber,
    cooldown_blocks: BlockNumber,
) -> RegistryStatus {
    if status == RegistryStatus::Active && pending_requests == 0 {
        RegistryStatus::Exiting {
            exit_available_at: if current + cooldown_blocks > u64::MAX {
                u64::MAX
            } else {
                (current + cooldown_blocks) as u64
            },
        }
    } else {
        status
    }
}

/// The status a participant that overflowed its routing index moves to.
pub fn overflowed_participant_status(
    status: RegistryStatus,
    pending_requests: u32,
    current: BlockNumber,
    cooldown_blocks: BlockNumber,
) -> (r: RegistryStatus)
    ensures
        r == spec_overflowed_status(status, pending_requests, current, cooldown_blocks),
{
    match status {
        RegistryStatus::Active => {
            if pending_requests == 0 {
                RegistryStatus::Exiting { exit_available_at: current.saturating_add(cooldown_blocks) }
            } else {
                status
            }
        },
        _ => status,
    }
}

/// A miner of a routing index as the route scan sees it.
#[derive(Clone, Copy, Debug, PartialEq, Eq)]
pub struct RouteMiner {
    pub id: MinerId,
    /// Registered on the subnet, active, and with its signature bundle bound.
    pub routable: bool,
    pub operator_commitment: Commitment,
}

/// A validator of a routing index as the route scan sees it.
#[derive(Clone, Copy, Debug, PartialEq, Eq)]
pub struct RouteValidator {
    pub id: ValidatorId,
    /// Registered on the subnet, active, with an active stake record and its signature bundle
    /// bound.
    pub routable: bool,
    pub operator_commitment: Commitment,
}

/// The miner and validator a request is assigned to.
#[derive(Clone, Copy, Debug, PartialEq, Eq, Structural)]
pub struct ChainAssignment {
    pub request_id: RequestId,
    pub subnet_id: SubnetId,
    pub miner_id: MinerId,
    pub validator_id: ValidatorId,
}

/// Whether `v` may validate work of a miner operated under `miner_operator`.
pub open spec fn validator_qualifies(v: RouteValidator, miner_operator: Commitment) -> bool {
    v.routable && v.operator_commitment != miner_operator
}

/// The first qualifying validator of the ring scan that starts at `start`, from step `offset`
/// on; none when a ring position overflows.
pub open spec fn scan_validators(
    vs: Seq<RouteValidator>,
    start: int,
    offset: int,
    miner_operator: Commitment,
) -> Option<ValidatorId>
    decreases vs.len() - offset,
{
    if offset < 0 || offset >= vs.len() {
        None
    } else if start + offset > usize::MAX {
        None
    } else {
        let v = vs[(start + offset) % (vs.len() as int)];
        if validator_qualifies(v, miner_operator) {
            Some(v.id)
        } else {
            scan_validators(vs, start, offset + 1, miner_operator)
        }
    }
}

/// The validator the route picks for a miner operated under `miner_operator`: the first
/// qualifying one scanning the index as a ring from `seed` modulo its length.
pub open spec fn spec_route_active_validator(
    vs: Seq<RouteValidator>,
    seed: u64,
    miner_operator: Commitment,
) -> Option<ValidatorId> {
    if vs.len() == 0 {
        None
    } else {
        scan_validators(vs, (seed % (vs.len() as u64)) as int, 0, miner_operator)
    }
}

/// Picks the validator for a miner operated under `miner_operator`.
pub fn route_active_validator(
    validators: &Vec<RouteValidator>,
    seed: u64,
    miner_operator: &Commitment,
) -> (r: Option<ValidatorId>)
    ensures
        r == spec_route_active_validator(validators@, seed, *miner_operator),
{
    let len = validators.len();
    if len == 0 {
        return None;
    }
    let count: u64 = len as u64;
    let start: usize = (seed % count) as usize;
    let mut offset: usize = 0;
    while offset < len
        invariant
            len == validators@.len(),
            len > 0,
            start == seed % (len as u64),
            0 <= offset <= len,
            spec_route_active_validator(validators@, seed, *miner_operator) == scan_validators(
                validators@,
                start as int,
                offset as int,
                *miner_operator,
            ),
        decreases len - offset,
    {
        let target = match start.checked_add(offset) {
            Some(t) => t % len,
            None => return None,
        };
        let v = validators[target];
        if v.routable && !commitments_equal(&v.operator_commitment, miner_operator) {
            return Some(v.id);
        }
        offset = offset + 1;
    }
    None
}

/// The upper half of a 64-bit value swapped with its lower half.
pub open spec fn spec_rotate_left_32(x: u64) -> u64 {
    ((x % 0x1_0000_0000) * 0x1_0000_0000 + x / 0x1_0000_0000) as u64
}

/// The seed of the validator scan for a request: its id rotated by 32 bits, xor the subnet.
pub open spec fn spec_validator_seed(request_id: RequestId, subnet_id: SubnetId) -> u64 {
    spec_rotate_left_32(request_id) ^ (subnet_id as u64)
}

fn validator_seed(request_id: RequestId, subnet_id: SubnetId) -> (r: u64)
    ensures
        r == spec_validator_seed(request_id, subnet_id),
{
    let rotated: u64 = (request_id << 32u64) | (request_id >> 32u64);
    assert(rotated == spec_rotate_left_32(request_id)) by (bit_vector)
        requires
            rotated == (request_id << 32u64) | (request_id >> 32u64),
    ;
    rotated ^ (subnet_id as u64)
}

/// The first routable miner of the ring scan from `start`, from step `offset` on, that has a
/// qualifying validator, with that validator.
pub open spec fn scan_miners(
    ms: Seq<RouteMiner>,
    vs: Seq<RouteValidator>,
    start: int,
    offset: int,
    validator_seed: u64,
) -> Option<(MinerId, ValidatorId)>
    decreases ms.len() - offset,
{
    if offset < 0 || offset >= ms.len() {
        None
    } else if start + offset > usize::MAX {
        None
    } else {
        let m = ms[(start + offset) % (ms.len() as int)];
        if !m.routable {
            scan_miners(ms, vs, start, offset + 1, validator_seed)
        } else {
            match spec_route_active_validator(vs, validator_seed, m.operator_commitment) {
                Some(v) => Some((m.id, v)),
                None => scan_miners(ms, vs, start, offset + 1, validator_seed),
            }
        }
    }
}

/// The assignment of request `request_id` on `subnet_id`: none unless the subnet exists and
/// is active and its miner index is not empty; else the first routable miner, scanning the
/// miner index as a ring from the request id modulo its length, for which a validator
/// qualifies.
pub open spec fn spec_route_assignment(
    subnet_active: bool,
    miners: Seq<RouteMiner>,
    validators: Seq<RouteValidator>,
    subnet_id: SubnetId,
    request_id: RequestId,
) -> Option<ChainAssignment> {
    if !subnet_active || miners.len() == 0 {
        None
    } else {
        match scan_miners(
            miners,
            validators,
            (request_id % (miners.len() as u64)) as int,
            0,
            spec_validator_seed(request_id, subnet_id),
        ) {
            Some((miner_id, validator_id)) => Some(
                ChainAssignment { request_id, subnet_id, miner_id, validator_id },
            ),
            None => None,
        }
    }
}

/// Assigns request `request_id` on `subnet_id` to a miner and a validator of the subnet's
/// routing indexes; `subnet_active` tells whether the subnet exists and is active.
pub fn route_assignment(
    subnet_active: bool,
    miners: &Vec<RouteMiner>,
    validators: &Vec<RouteValidator>,
    subnet_id: SubnetId,
    request_id: RequestId,
) -> (r: Option<ChainAssignment>)
    ensures
        r == spec_route_assignment(subnet_active, miners@, validators@, subnet_id, request_id),
{
    if !subnet_active {
        return None;
    }
    let len = miners.len();
    if len == 0 {
        return None;
    }
    let count: u64 = len as u64;
    let start: usize = (request_id % count) as usize;
    let seed = validator_seed(request_id, subnet_id);
    let ghost goal = scan_miners(miners@, validators@, start as int, 0, seed);
    assert((request_id % (miners@.len() as u64)) as int == start as int);
    assert(spec_route_assignment(subnet_active, miners@, validators@, subnet_id, request_id)
        == match goal {
        Some((miner_id, validator_id)) => Some(
            ChainAssignment { request_id, subnet_id, miner_id, validator_id },
        ),
        None => None,
    });
    let mut offset: usize = 0;
    while offset < len
        invariant
            len == miners@.len(),
            len > 0,
            start == request_id % (len as u64),
            seed == spec_validator_seed(request_id, subnet_id),
            0 <= offset <= len,
            goal == scan_miners(miners@, validators@, start as int, 0, seed),
            goal == scan_miners(miners@, validators@, start as int, offset as int, seed),
            spec_route_assignment(subnet_active, miners@, validators@, subnet_id, request_id)
                == match goal {
                Some((miner_id, validator_id)) => Some(
                    ChainAssignment { request_id, subnet_id, miner_id, validator_id },
                ),
                None => None,
            },
        decreases len - offset,
    {
        let target = match start.checked_add(offset) {
            Some(t) => t % len,
            None => return None,
        };
        let m = miners[target];
        if m.routable {
            match route_active_validator(validators, seed, &m.operator_commitment) {
                Some(validator_id) => {
                    assert(miners@[(start + offset) % (len as int)] == m);
                    assert(goal == Some((m.id, validator_id)));
                    return Some(
                        ChainAssignment { request_id, subnet_id, miner_id: m.id, validator_id },
                    );
                },
                None => {},
            }
        }
        offset = offset + 1;
    }
    None
}

/// A scan result is a qualifying participant of the index, and a scan that finds nothing had
/// nothing to find when no ring position overflows.
pub proof fn lemma_validator_scan_sound(
    vs: Seq<RouteValidator>,
    start: int,
    offset: int,
    miner_operator: Commitment,
)
    requires
        0 <= start,
        0 <= offset,
        start + vs.len() <= usize::MAX,
        vs.len() > 0,
    ensures
        scan_validators(vs, start, offset, miner_operator) matches Some(id) ==> exists|i: int|
            0 <= i < vs.len() && vs[i].id == id && validator_qualifies(vs[i], miner_operator),
        scan_validators(vs, start, offset, miner_operator) is None ==> forall|k: int|
            offset <= k < vs.len() ==> !validator_qualifies(
                #[trigger] vs[(start + k) % (vs.len() as int)],
                miner_operator,
            ),
    decreases vs.len() - offset,
{
    if offset < vs.len() {
        lemma_validator_scan_sound(vs, start, offset + 1, miner_operator);
        let i = (start + offset) % (vs.len() as int);
        assert(0 <= i < vs.len());
    }
}

/// Every assignment pairs a routable miner of the subnet's index with a routable validator of
/// its index operated by someone else.
pub proof fn lemma_assignment_is_sound(
    subnet_active: bool,
    miners: Seq<RouteMiner>,
    validators: Seq<RouteValidator>,
    subnet_id: SubnetId,
    request_id: RequestId,
)
    requires
        miners.len() <= usize::MAX / 2,
        validators.len() <= usize::MAX / 2,
    ensures
        spec_route_assignment(subnet_active, miners, validators, subnet_id, request_id) matches Some(
            a,
        ) ==> {
            &&& subnet_active
            &&& a.request_id == request_id
            &&& a.subnet_id == subnet_id
            &&& exists|i: int, j: int|
                0 <= i < miners.len() && 0 <= j < validators.len() && #[trigger] miners[i].id
                    == a.miner_id && #[trigger] validators[j].id == a.validator_id
                    && miners[i].routable && validator_qualifies(
                    validators[j],
                    miners[i].operator_commitment,
                )
        },
{
    if subnet_active && miners.len() > 0 {
        let start = (request_id % (miners.len() as u64)) as int;
        lemma_miner_scan_sound(miners, validators, start, 0, spec_validator_seed(request_id, subnet_id));
    }
}

proof fn lemma_miner_scan_sound(
    ms: Seq<RouteMiner>,
    vs: Seq<RouteValidator>,
    start: int,
    offset: int,
    seed: u64,
)
    requires
        0 <= start < ms.len(),
        0 <= offset,
        ms.len() <= usize::MAX / 2,
        vs.len() <= usize::MAX / 2,
    ensures
        scan_miners(ms, vs, start, offset, seed) matches Some((m, v)) ==> exists|i: int, j: int|
            0 <= i < ms.len() && 0 <= j < vs.len() && #[trigger] ms[i].id == m && #[trigger] vs[j].id
                == v && ms[i].routable && validator_qualifies(vs[j], ms[i].operator_commitment),
    decreases ms.len() - offset,
{
    if offset < ms.len() {
        lemma_miner_scan_sound(ms, vs, start, offset + 1, seed);
        let i = (start + offset) % (ms.len() as int);
        let m = ms[i];
        if m.routable && vs.len() > 0 {
            let vstart = (seed % (vs.len() as u64)) as int;
            lemma_validator_scan_sound(vs, vstart, 0, m.operator_commitment);
            match spec_route_active_validator(vs, seed, m.operator_commitment) {
                Some(v) => {
                    let j = choose|j: int|
                        0 <= j < vs.len() && vs[j].id == v && validator_qualifies(
                            vs[j],
                            m.operator_commitment,
                        );
                    assert(ms[i].id == m.id && vs[j].id == v);
                },
                None => {},
            }
        }
    }
}

/// The ring step at which a scan from `start` over `len` positions reaches position `i`.
proof fn ring_step(start: int, i: int, len: int) -> (k: int)
    requires
        0 <= start < len,
        0 <= i < len,
    ensures
        0 <= k < len,
        (start + k) % len == i,
{
    if i >= start {
        assert((start + (i - start)) % len == i) by (nonlinear_arith)
            requires
                0 <= i < len,
        ;
        i - start
    } else {
        assert((start + (i + len - start)) % len == i) by (nonlinear_arith)
            requires
                0 <= i < len,
        ;
        i + len - start
    }
}

proof fn lemma_miner_scan_complete(
    ms: Seq<RouteMiner>,
    vs: Seq<RouteValidator>,
    start: int,
    offset: int,
    seed: u64,
)
    requires
        0 <= start < ms.len(),
        0 <= offset,
        ms.len() <= usize::MAX / 2,
        scan_miners(ms, vs, start, offset, seed) is None,
    ensures
        forall|k: int|
            offset <= k < ms.len() ==> !(#[trigger] ms[(start + k) % (ms.len() as int)]).routable
                || spec_route_active_validator(
                vs,
                seed,
                ms[(start + k) % (ms.len() as int)].operator_commitment,
            ) is None,
    decreases ms.len() - offset,
{
    if offset < ms.len() {
        lemma_miner_scan_complete(ms, vs, start, offset + 1, seed);
    }
}

/// A request goes unassigned on an active subnet only when no routable miner of its index has
/// a qualifying validator in the validator index.
pub proof fn lemma_assignment_is_complete(
    miners: Seq<RouteMiner>,
    validators: Seq<RouteValidator>,
    subnet_id: SubnetId,
    request_id: RequestId,
)
    requires
        miners.len() <= usize::MAX / 2,
        validators.len() <= usize::MAX / 2,
        spec_route_assignment(true, miners, validators, subnet_id, request_id) is None,
    ensures
        forall|i: int, j: int|
            0 <= i < miners.len() && 0 <= j < validators.len() && (#[trigger] miners[i]).routable
                ==> !validator_qualifies(#[trigger] validators[j], miners[i].operator_commitment),
{
    if miners.len() > 0 {
        let start = (request_id % (miners.len() as u64)) as int;
        let seed = spec_validator_seed(request_id, subnet_id);
        lemma_miner_scan_complete(miners, validators, start, 0, seed);
        assert forall|i: int, j: int|
            0 <= i < miners.len() && 0 <= j < validators.len() && (#[trigger] miners[i]).routable
                implies !validator_qualifies(
            #[trigger] validators[j],
            miners[i].operator_commitment,
        ) by {
            let k = ring_step(start, i, miners.len() as int);
            assert(miners[(start + k) % (miners.len() as int)] == miners[i]);
            let vstart = (seed % (validators.len() as u64)) as int;
            lemma_validator_scan_sound(validators, vstart, 0, miners[i].operator_commitment);
            let kk = ring_step(vstart, j, validators.len() as int);
            assert(validators[(vstart + kk) % (validators.len() as int)] == validators[j]);
        }
    }
}

/// An overflowed participant starts exiting exactly when it is active with no pending
/// requests, its exit available the cooldown after `current` (at most `u64::MAX`); any other
/// keeps its status.
pub proof fn lemma_overflow_exits_only_idle_active(
    status: RegistryStatus,
    pending_requests: u32,
    current: BlockNumber,
    cooldown_blocks: BlockNumber,
)
    ensures
        status == RegistryStatus::Active && pending_requests == 0 && current + cooldown_blocks
            <= u64::MAX ==> spec_overflowed_status(status, pending_requests, current, cooldown_blocks)
            == (RegistryStatus::Exiting { exit_available_at: (current + cooldown_blocks) as u64 }),
        !(status == RegistryStatus::Active && pending_requests == 0) ==> spec_overflowed_status(
            status,
            pending_requests,
            current,
            cooldown_blocks,
        ) == status,
{
}

/// The validator scan starts at the seed's position: when every validator of the index
/// qualifies, the one at the seed modulo the index length is picked.
pub proof fn lemma_validator_scan_starts_at_seed(vs: Seq<RouteValidator>, seed: u64, miner_operator: Commitment)
    requires
        0 < vs.len() <= usize::MAX,
        forall|i: int| 0 <= i < vs.len() ==> validator_qualifies(#[trigger] vs[i], miner_operator),
    ensures
        spec_route_active_validator(vs, seed, miner_operator) == Some(vs[(seed % (vs.len() as u64)) as int].id),
{
    let n = vs.len() as u64;
    let start = (seed % n) as int;
    assert(0 <= start < n);
    vstd::arithmetic::div_mod::lemma_small_mod(start as nat, n as nat);
}

/// The miner scan starts at the request's position: when every miner of the index is routable
/// and has a qualifying validator, the request goes to the miner at its id modulo the index
/// length, with the validator the scan picks for it.
pub proof fn lemma_assignment_starts_at_request(
    miners: Seq<RouteMiner>,
    validators: Seq<RouteValidator>,
    subnet_id: SubnetId,
    request_id: RequestId,
)
    requires
        0 < miners.len() <= usize::MAX,
        forall|i: int| 0 <= i < miners.len() ==> (#[trigger] miners[i]).routable && spec_route_active_validator(
            validators,
            spec_validator_seed(request_id, subnet_id),
            miners[i].operator_commitment,
        ) is Some,
    ensures
        ({
            let m = miners[(request_id % (miners.len() as u64)) as int];
            spec_route_assignment(true, miners, validators, subnet_id, request_id) == Some(
                ChainAssignment {
                    request_id,
                    subnet_id,
                    miner_id: m.id,
                    validator_id: spec_route_active_validator(
                        validators,
                        spec_validator_seed(request_id, subnet_id),
                        m.operator_commitment,
                    )->Some_0,
                },
            )
        }),
{
    let n = miners.len() as u64;
    let start = (request_id % n) as int;
    assert(0 <= start < n);
    vstd::arithmetic::div_mod::lemma_small_mod(start as nat, n as nat);
}

/// The validator seed of a request is its id with the two 32-bit halves swapped, exclusive-or
/// its subnet.
pub proof fn lemma_validator_seed_swaps_halves(request_id: RequestId, subnet_id: SubnetId)
    ensures
        spec_validator_seed(request_id, subnet_id) == ((request_id % 0x1_0000_0000) * 0x1_0000_0000
            + request_id / 0x1_0000_0000) as u64 ^ (subnet_id as u64),
{
}

} // verus!
