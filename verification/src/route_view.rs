//! The route scan run over the chain registry: the routing indexes of a subnet read as the
//! scan sees them, and the public answer to whether the next request could be routed.
use vstd::prelude::*;

use crate::chain::ChainRouteAvailability;
use crate::registry::{index_of, ChainInferenceRequest, ChainRegistry};
use crate::routing::{
    lemma_assignment_is_sound, route_assignment, spec_route_assignment, validator_qualifies,
    ChainAssignment, RouteMiner, RouteValidator,
};
use crate::rules::{spec_fee_split_error, validate_fee_split, ChainRuleError};
use crate::{
    commitment_is_zero, is_zero_commitment, Balance, Commitment, MinerId, RegistryStatus,
    RequestId, SubnetId, ValidatorId,
};

verus! {

broadcast use {vstd::std_specs::btree::group_btree_axioms, vstd::laws_cmp::group_laws_cmp};

impl ChainRegistry {
    /// Miner `id` of the routing index of `subnet_id` as the route scan sees it: routable when
    /// it is registered on the subnet, active and has its identity recorded.
    pub open spec fn spec_route_miner(a: ChainRegistry, subnet_id: SubnetId, id: MinerId) -> RouteMiner {
        if a.miners@.contains_key(id) {
            let m = a.miners@[id];
            RouteMiner {
                id,
                routable: m.subnet_id == subnet_id && m.status == RegistryStatus::Active
                    && a.miner_identities@.contains_key(id),
                operator_commitment: m.operator_commitment,
            }
        } else {
            RouteMiner { id, routable: false, operator_commitment: [0u8; 32usize] }
        }
    }

    /// Validator `id` of the routing index of `subnet_id` as the route scan sees it: routable
    /// when it is registered on the subnet, active, holds a stake record of at least
    /// `min_stake` and has its identity recorded.
    pub open spec fn spec_route_validator(
        a: ChainRegistry,
        subnet_id: SubnetId,
        id: ValidatorId,
        min_stake: Balance,
    ) -> RouteValidator {
        if a.validators@.contains_key(id) {
            let v = a.validators@[id];
            RouteValidator {
                id,
                routable: v.subnet_id == subnet_id && v.status == RegistryStatus::Active
                    && a.validator_stakes@.contains_key(id) && a.validator_stakes@[id] >= min_stake
                    && a.validator_identities@.contains_key(id),
                operator_commitment: v.operator_commitment,
            }
        } else {
            RouteValidator { id, routable: false, operator_commitment: [0u8; 32usize] }
        }
    }

    /// The miner routing index of `subnet_id` as the route scan sees it.
    pub open spec fn spec_route_miners(a: ChainRegistry, subnet_id: SubnetId) -> Seq<RouteMiner> {
        index_of(a.active_miners@, subnet_id).map_values(
            |id: MinerId| Self::spec_route_miner(a, subnet_id, id),
        )
    }

    /// The validator routing index of `subnet_id` as the route scan sees it.
    pub open spec fn spec_route_validators(
        a: ChainRegistry,
        subnet_id: SubnetId,
        min_stake: Balance,
    ) -> Seq<RouteValidator> {
        index_of(a.active_validators@, subnet_id).map_values(
            |id: ValidatorId| Self::spec_route_validator(a, subnet_id, id, min_stake),
        )
    }

    /// Whether `subnet_id` is registered and active.
    pub open spec fn subnet_active(a: ChainRegistry, subnet_id: SubnetId) -> bool {
        a.subnets@.contains_key(subnet_id) && a.subnets@[subnet_id].active
    }

    fn route_miners(&self, subnet_id: SubnetId) -> (r: Vec<RouteMiner>)
        ensures
            r@ == Self::spec_route_miners(*self, subnet_id),
    {
        let mut r: Vec<RouteMiner> = Vec::new();
        let ids = match self.active_miners.get(&subnet_id) {
            Some(ids) => ids,
            None => {
                assert(r@ =~= Self::spec_route_miners(*self, subnet_id));
                return r;
            },
        };
        let ghost idx = index_of(self.active_miners@, subnet_id);
        let mut i: usize = 0;
        while i < ids.len()
            invariant
                ids@ == idx,
                0 <= i <= ids@.len(),
                r@.len() == i,
                forall|j: int| 0 <= j < i ==> #[trigger] r@[j] == Self::spec_route_miner(*self, subnet_id, idx[j]),
            decreases ids@.len() - i,
        {
            let id = ids[i];
            let entry = match self.miners.get(&id) {
                Some(m) => RouteMiner {
                    id,
                    routable: m.subnet_id == subnet_id && m.status == RegistryStatus::Active
                        && self.miner_identities.contains_key(&id),
                    operator_commitment: m.operator_commitment,
                },
                None => RouteMiner { id, routable: false, operator_commitment: [0u8; 32] },
            };
            r.push(entry);
            i = i + 1;
        }
        assert(r@ =~= Self::spec_route_miners(*self, subnet_id));
        r
    }

    fn route_validators(&self, subnet_id: SubnetId, min_stake: Balance) -> (r: Vec<RouteValidator>)
        ensures
            r@ == Self::spec_route_validators(*self, subnet_id, min_stake),
    {
        let mut r: Vec<RouteValidator> = Vec::new();
        let ids = match self.active_validators.get(&subnet_id) {
            Some(ids) => ids,
            None => {
                assert(r@ =~= Self::spec_route_validators(*self, subnet_id, min_stake));
                return r;
            },
        };
        let ghost idx = index_of(self.active_validators@, subnet_id);
        let mut i: usize = 0;
        while i < ids.len()
            invariant
                ids@ == idx,
                0 <= i <= ids@.len(),
                r@.len() == i,
                forall|j: int| 0 <= j < i ==> #[trigger] r@[j] == Self::spec_route_validator(*self, subnet_id, idx[j], min_stake),
            decreases ids@.len() - i,
        {
            let id = ids[i];
            let entry = match self.validators.get(&id) {
                Some(v) => {
                    let staked = match self.validator_stakes.get(&id) {
                        Some(stake) => *stake >= min_stake,
                        None => false,
                    };
                    RouteValidator {
                        id,
                        routable: v.subnet_id == subnet_id && v.status == RegistryStatus::Active
                            && staked && self.validator_identities.contains_key(&id),
                        operator_commitment: v.operator_commitment,
                    }
                },
                None => RouteValidator { id, routable: false, operator_commitment: [0u8; 32] },
            };
            r.push(entry);
            i = i + 1;
        }
        assert(r@ =~= Self::spec_route_validators(*self, subnet_id, min_stake));
        r
    }

    /// Whether the next request on `subnet_id` could be routed now, validators needing a stake
    /// record of at least `min_validator_stake`; it names the request id and the subnet, never
    /// the participants the route would pick.
    pub fn next_route_availability(&self, subnet_id: SubnetId, min_validator_stake: Balance) -> (r:
        ChainRouteAvailability)
        ensures
            r == (ChainRouteAvailability {
                request_id: self.next_request_id,
                subnet_id,
                available: spec_route_assignment(
                    Self::subnet_active(*self, subnet_id),
                    Self::spec_route_miners(*self, subnet_id),
                    Self::spec_route_validators(*self, subnet_id, min_validator_stake),
                    subnet_id,
                    self.next_request_id,
                ) is Some,
            }),
    {
        let active = match self.subnets.get(&subnet_id) {
            Some(s) => s.active,
            None => false,
        };
        let miners = self.route_miners(subnet_id);
        let validators = self.route_validators(subnet_id, min_validator_stake);
        let route = route_assignment(active, &miners, &validators, subnet_id, self.next_request_id);
        ChainRouteAvailability {
            request_id: self.next_request_id,
            subnet_id,
            available: route.is_some(),
        }
    }
}

/// What a user asks for when opening an inference request: the subnet, zero participant ids
/// (the chain assigns the route), the input commitment, the blindings of the route, timing and
/// terms commitments, and the payment terms.
#[derive(Clone, Copy, Debug, PartialEq, Eq)]
pub struct InferenceRequestParams {
    pub subnet_id: SubnetId,
    pub miner_id: MinerId,
    pub validator_id: ValidatorId,
    pub input_commitment: Commitment,
    pub assignment_blinding: Commitment,
    pub timing_blinding: Commitment,
    pub terms_blinding: Commitment,
    pub payment: Balance,
    pub validator_fee_bps: u16,
    pub treasury_fee_bps: u16,
}

impl ChainRegistry {
    /// The route of request `request_id` on `subnet_id` over the registry's indexes.
    pub open spec fn spec_registry_route(
        a: ChainRegistry,
        subnet_id: SubnetId,
        request_id: RequestId,
        min_validator_stake: Balance,
    ) -> Option<ChainAssignment> {
        spec_route_assignment(
            Self::subnet_active(a, subnet_id),
            Self::spec_route_miners(a, subnet_id),
            Self::spec_route_validators(a, subnet_id, min_validator_stake),
            subnet_id,
            request_id,
        )
    }

    /// The route a request opened as `request_id` with `params` would take, or why it cannot
    /// be opened: the participant ids must be zero, the input commitment and the blindings
    /// set, the id unused, the payment positive with a valid fee split, the subnet registered
    /// and active, the id the next one (and not the last), and a route must exist.
    pub open spec fn spec_route_inference_request(
        a: ChainRegistry,
        request_id: RequestId,
        params: InferenceRequestParams,
        min_validator_stake: Balance,
    ) -> Result<ChainAssignment, ChainRuleError> {
        if params.miner_id != 0 || params.validator_id != 0 {
            Err(ChainRuleError::RouteAssignmentMustBeHidden)
        } else if is_zero_commitment(params.input_commitment) || is_zero_commitment(
            params.assignment_blinding,
        ) || is_zero_commitment(params.timing_blinding) || is_zero_commitment(
            params.terms_blinding,
        ) {
            Err(ChainRuleError::MissingCommitment)
        } else if a.requests@.contains_key(request_id) {
            Err(ChainRuleError::DuplicateRequest)
        } else if params.payment == 0 {
            Err(ChainRuleError::InvalidPayment)
        } else if spec_fee_split_error(params.validator_fee_bps, params.treasury_fee_bps) is Some {
            Err(spec_fee_split_error(params.validator_fee_bps, params.treasury_fee_bps)->Some_0)
        } else if !a.subnets@.contains_key(params.subnet_id) {
            Err(ChainRuleError::UnknownSubnet)
        } else if !a.subnets@[params.subnet_id].active {
            Err(ChainRuleError::NotActive)
        } else if request_id != a.next_request_id {
            Err(ChainRuleError::InvalidRequestId)
        } else if request_id == u64::MAX {
            Err(ChainRuleError::ArithmeticOverflow)
        } else {
            match Self::spec_registry_route(a, params.subnet_id, request_id, min_validator_stake) {
                Some(assignment) => Ok(assignment),
                None => Err(ChainRuleError::NoRouteAvailable),
            }
        }
    }

    /// Checks a request the user asks to open and picks its route; the caller then computes
    /// the request's route, timing and terms commitments for the route picked and opens it
    /// with `open_inference_request`.
    pub fn route_inference_request(
        &self,
        request_id: RequestId,
        params: &InferenceRequestParams,
        min_validator_stake: Balance,
    ) -> (r: Result<ChainAssignment, ChainRuleError>)
        ensures
            r == Self::spec_route_inference_request(*self, request_id, *params, min_validator_stake),
    {
        if params.miner_id != 0 || params.validator_id != 0 {
            return Err(ChainRuleError::RouteAssignmentMustBeHidden);
        }
        if commitment_is_zero(&params.input_commitment) || commitment_is_zero(
            &params.assignment_blinding,
        ) || commitment_is_zero(&params.timing_blinding) || commitment_is_zero(
            &params.terms_blinding,
        ) {
            return Err(ChainRuleError::MissingCommitment);
        }
        if self.requests.contains_key(&request_id) {
            return Err(ChainRuleError::DuplicateRequest);
        }
        if params.payment == 0 {
            return Err(ChainRuleError::InvalidPayment);
        }
        match validate_fee_split(params.validator_fee_bps, params.treasury_fee_bps) {
            Ok(()) => {},
            Err(e) => return Err(e),
        }
        let active = match self.subnets.get(&params.subnet_id) {
            Some(s) => s.active,
            None => return Err(ChainRuleError::UnknownSubnet),
        };
        if !active {
            return Err(ChainRuleError::NotActive);
        }
        if request_id != self.next_request_id {
            return Err(ChainRuleError::InvalidRequestId);
        }
        if request_id == u64::MAX {
            return Err(ChainRuleError::ArithmeticOverflow);
        }
        let miners = self.route_miners(params.subnet_id);
        let validators = self.route_validators(params.subnet_id, min_validator_stake);
        match route_assignment(true, &miners, &validators, params.subnet_id, request_id) {
            Some(assignment) => Ok(assignment),
            None => Err(ChainRuleError::NoRouteAvailable),
        }
    }
}

impl ChainRegistry {
    /// A request the registry routes can be opened on its route: opening it there fails, if at
    /// all, only because a counter or a total is at its limit.
    pub proof fn lemma_routed_request_opens(
        a: ChainRegistry,
        request_id: RequestId,
        params: InferenceRequestParams,
        min_validator_stake: Balance,
        request: ChainInferenceRequest,
        payment: Balance,
    )
        requires
            index_of(a.active_miners@, params.subnet_id).len() <= usize::MAX / 2,
            index_of(a.active_validators@, params.subnet_id).len() <= usize::MAX / 2,
            Self::spec_route_inference_request(a, request_id, params, min_validator_stake) is Ok,
            request.request_id == request_id,
            request.subnet_id == params.subnet_id,
        ensures
            ({
                let route = Self::spec_route_inference_request(
                    a,
                    request_id,
                    params,
                    min_validator_stake,
                )->Ok_0;
                Self::open_request_error(a, request, route.miner_id, route.validator_id, payment)
                    matches Some(e) ==> e == ChainRuleError::ArithmeticOverflow
            }),
    {
        let subnet_id = params.subnet_id;
        let miners = Self::spec_route_miners(a, subnet_id);
        let validators = Self::spec_route_validators(a, subnet_id, min_validator_stake);
        lemma_assignment_is_sound(
            Self::subnet_active(a, subnet_id),
            miners,
            validators,
            subnet_id,
            request_id,
        );
        let route = Self::spec_route_inference_request(a, request_id, params, min_validator_stake)->Ok_0;
        let (i, j) = choose|i: int, j: int|
            0 <= i < miners.len() && 0 <= j < validators.len() && #[trigger] miners[i].id
                == route.miner_id && #[trigger] validators[j].id == route.validator_id
                && miners[i].routable && validator_qualifies(
                validators[j],
                miners[i].operator_commitment,
            );
        assert(miners[i] == Self::spec_route_miner(a, subnet_id, index_of(a.active_miners@, subnet_id)[i]));
        assert(validators[j] == Self::spec_route_validator(
            a,
            subnet_id,
            index_of(a.active_validators@, subnet_id)[j],
            min_validator_stake,
        ));
    }
}

impl ChainRegistry {
    /// A request is routed only when it names no participants, carries its input commitment
    /// and blindings, uses an unused id that is the next one, pays a positive amount at fee
    /// rates taking at most 100%, and targets a registered, active subnet; the route names that
    /// request and subnet.
    pub proof fn lemma_routed_request_requirements(
        a: ChainRegistry,
        request_id: RequestId,
        params: InferenceRequestParams,
        min_validator_stake: Balance,
    )
        ensures
            Self::spec_route_inference_request(a, request_id, params, min_validator_stake) matches Ok(route)
                ==> {
                &&& params.miner_id == 0 && params.validator_id == 0
                &&& !is_zero_commitment(params.input_commitment)
                &&& !is_zero_commitment(params.assignment_blinding)
                &&& !is_zero_commitment(params.timing_blinding)
                &&& !is_zero_commitment(params.terms_blinding)
                &&& !a.requests@.contains_key(request_id)
                &&& request_id == a.next_request_id
                &&& params.payment > 0
                &&& params.validator_fee_bps + params.treasury_fee_bps <= 10000
                &&& a.subnets@.contains_key(params.subnet_id)
                &&& a.subnets@[params.subnet_id].active
                &&& route.request_id == request_id
                &&& route.subnet_id == params.subnet_id
            },
    {
        crate::rules::lemma_fee_split_accepts_exactly(params.validator_fee_bps, params.treasury_fee_bps);
        lemma_route_names_request(a, request_id, params, min_validator_stake);
    }
}

proof fn lemma_route_names_request(
    a: ChainRegistry,
    request_id: RequestId,
    params: InferenceRequestParams,
    min_validator_stake: Balance,
)
    ensures
        ChainRegistry::spec_registry_route(a, params.subnet_id, request_id, min_validator_stake) matches Some(
            route,
        ) ==> route.request_id == request_id && route.subnet_id == params.subnet_id,
{
}

} // verus!
