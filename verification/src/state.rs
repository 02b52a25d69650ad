//! The protocol state machine: QBT ledgers, subnet / miner / validator registries and
//! inference records, with the transitions that move funds between them.
use vstd::prelude::*;

use std::collections::BTreeMap;

use crate::proof_verifier::{ProofProcessing, ProofVerifier};
use crate::{
    commitment_is_zero, commitments_equal, is_zero_commitment, settle_inference_payment,
    spec_settle_inference_payment, AccountId, Balance, BlockNumber, Commitment,
    InferenceProofSubmission, InferenceRecord, InferenceSettlement, MinerId, MinerRegistration,
    ProofSystem, ProtocolError, RegistryStatus, RequestId, SubnetConfig, SubnetDomain, SubnetId,
    SubnetPolicy, ValidatorId, ValidatorRegistration, VerificationOutcome, INITIAL_SUPPLY,
};
use crate::{
    lemma_exit_follows_cooldown, lemma_shape_check_accepts_exactly, lemma_slash_amount_follows_rate,
    MINER_REGISTRATION_BURN,
};

verus! {

broadcast use {vstd::std_specs::btree::group_btree_axioms, vstd::laws_cmp::group_laws_cmp};

/// Balance accounting tracked by the protocol state machine.
#[derive(Clone, Copy, Debug, PartialEq, Eq, Structural)]
pub struct AccountLedger {
    pub free: Balance,
    pub locked: Balance,
}

impl Default for AccountLedger {
    fn default() -> (r: Self)
        ensures
            r == empty_ledger(),
    {
        AccountLedger { free: 0, locked: 0 }
    }
}

/// The ledger of an account that holds nothing.
pub open spec fn empty_ledger() -> AccountLedger {
    AccountLedger { free: 0, locked: 0 }
}

/// A ledger holding `free` QBT, none of it locked.
pub open spec fn unlocked_ledger(free: int) -> AccountLedger {
    AccountLedger { free: free as u128, locked: 0 }
}

/// Everything an account holds, free and locked.
pub open spec fn ledger_total(l: AccountLedger) -> int {
    l.free + l.locked
}

impl AccountLedger {
    /// Free plus locked balance; fails when the sum does not fit a balance.
    pub fn total(self) -> (r: Result<Balance, ProtocolError>)
        ensures
            ledger_total(self) > u128::MAX ==> r == Err::<Balance, ProtocolError>(
                ProtocolError::ArithmeticOverflow,
            ),
            ledger_total(self) <= u128::MAX ==> r == Ok::<Balance, ProtocolError>(
                ledger_total(self) as u128,
            ),
    {
        match self.free.checked_add(self.locked) {
            Some(v) => Ok(v),
            None => Err(ProtocolError::ArithmeticOverflow),
        }
    }
}

/// The ledger recorded for `account` among `entries` (the last entry for it), or an
/// empty ledger when there is none.
pub open spec fn lookup_ledger(entries: Seq<(AccountId, AccountLedger)>, account: AccountId) -> AccountLedger
    decreases entries.len(),
{
    if entries.len() == 0 {
        empty_ledger()
    } else if entries.last().0 == account {
        entries.last().1
    } else {
        lookup_ledger(entries.drop_last(), account)
    }
}

/// The QBT held across all ledger entries.
pub open spec fn sum_totals(entries: Seq<(AccountId, AccountLedger)>) -> int
    decreases entries.len(),
{
    if entries.len() == 0 {
        0
    } else {
        sum_totals(entries.drop_last()) + ledger_total(entries.last().1)
    }
}

/// No account appears twice among the entries.
pub open spec fn distinct_accounts(entries: Seq<(AccountId, AccountLedger)>) -> bool {
    forall|i: int, j: int|
        0 <= i < j < entries.len() ==> #[trigger] entries[i].0 != #[trigger] entries[j].0
}

proof fn lemma_lookup_last(entries: Seq<(AccountId, AccountLedger)>, i: int)
    requires
        0 <= i < entries.len(),
        forall|j: int| i < j < entries.len() ==> #[trigger] entries[j].0 != entries[i].0,
    ensures
        lookup_ledger(entries, entries[i].0) == entries[i].1,
    decreases entries.len(),
{
    if i < entries.len() - 1 {
        assert(entries.last().0 != entries[i].0);
        let d = entries.drop_last();
        assert(d[i] == entries[i]);
        assert forall|j: int| i < j < d.len() implies #[trigger] d[j].0 != d[i].0 by {
            assert(d[j] == entries[j]);
        }
        lemma_lookup_last(d, i);
    }
}

proof fn lemma_lookup_absent(entries: Seq<(AccountId, AccountLedger)>, account: AccountId)
    requires
        forall|i: int| 0 <= i < entries.len() ==> #[trigger] entries[i].0 != account,
    ensures
        lookup_ledger(entries, account) == empty_ledger(),
    decreases entries.len(),
{
    if entries.len() > 0 {
        let d = entries.drop_last();
        assert(entries.last().0 != account);
        assert forall|i: int| 0 <= i < d.len() implies #[trigger] d[i].0 != account by {
            assert(d[i] == entries[i]);
        }
        lemma_lookup_absent(d, account);
    }
}

proof fn lemma_update_entry(
    entries: Seq<(AccountId, AccountLedger)>,
    i: int,
    ledger: AccountLedger,
)
    requires
        distinct_accounts(entries),
        0 <= i < entries.len(),
    ensures
        distinct_accounts(entries.update(i, (entries[i].0, ledger))),
        forall|a: AccountId| #[trigger]
            lookup_ledger(entries.update(i, (entries[i].0, ledger)), a) == if a == entries[i].0 {
                ledger
            } else {
                lookup_ledger(entries, a)
            },
        sum_totals(entries.update(i, (entries[i].0, ledger))) == sum_totals(entries)
            - ledger_total(entries[i].1) + ledger_total(ledger),
    decreases entries.len(),
{
    let k = entries[i].0;
    let u = entries.update(i, (k, ledger));
    assert(distinct_accounts(u)) by {
        assert forall|a: int, b: int| 0 <= a < b < u.len() implies #[trigger] u[a].0
            != #[trigger] u[b].0 by {
            assert(u[a].0 == entries[a].0 && u[b].0 == entries[b].0);
        }
    }
    let d = entries.drop_last();
    if i == entries.len() - 1 {
        assert(u.drop_last() =~= d);
        assert forall|a: AccountId| #[trigger]
            lookup_ledger(u, a) == if a == k {
                ledger
            } else {
                lookup_ledger(entries, a)
            } by {}
    } else {
        assert(distinct_accounts(d)) by {
            assert forall|a: int, b: int| 0 <= a < b < d.len() implies #[trigger] d[a].0
                != #[trigger] d[b].0 by {
                assert(d[a] == entries[a] && d[b] == entries[b]);
            }
        }
        assert(d[i] == entries[i]);
        lemma_update_entry(d, i, ledger);
        assert(u.drop_last() =~= d.update(i, (k, ledger)));
        assert(u.last() == entries.last());
        assert(entries.last().0 != k);
        assert forall|a: AccountId| #[trigger]
            lookup_ledger(u, a) == if a == k {
                ledger
            } else {
                lookup_ledger(entries, a)
            } by {
            assert(lookup_ledger(d.update(i, (k, ledger)), a) == if a == k {
                ledger
            } else {
                lookup_ledger(d, a)
            });
        }
    }
}

proof fn lemma_push_entry(
    entries: Seq<(AccountId, AccountLedger)>,
    account: AccountId,
    ledger: AccountLedger,
)
    requires
        distinct_accounts(entries),
        forall|i: int| 0 <= i < entries.len() ==> #[trigger] entries[i].0 != account,
    ensures
        distinct_accounts(entries.push((account, ledger))),
        forall|a: AccountId| #[trigger]
            lookup_ledger(entries.push((account, ledger)), a) == if a == account {
                ledger
            } else {
                lookup_ledger(entries, a)
            },
        sum_totals(entries.push((account, ledger))) == sum_totals(entries) + ledger_total(
            ledger,
        ),
{
    let p = entries.push((account, ledger));
    assert(p.drop_last() =~= entries);
    assert(distinct_accounts(p)) by {
        assert forall|a: int, b: int| 0 <= a < b < p.len() implies #[trigger] p[a].0
            != #[trigger] p[b].0 by {
            if b == entries.len() {
                assert(p[a] == entries[a]);
            } else {
                assert(p[a] == entries[a] && p[b] == entries[b]);
            }
        }
    }
}

proof fn lemma_lookup_within_sum(entries: Seq<(AccountId, AccountLedger)>, account: AccountId)
    ensures
        0 <= ledger_total(lookup_ledger(entries, account)) <= sum_totals(entries),
        0 <= sum_totals(entries),
    decreases entries.len(),
{
    if entries.len() > 0 {
        lemma_lookup_within_sum(entries.drop_last(), account);
    }
}

/// The sum of the amounts in a genesis endowment list.
pub open spec fn endowment_total(endowed: Seq<(AccountId, Balance)>) -> int
    decreases endowed.len(),
{
    if endowed.len() == 0 {
        0
    } else {
        endowment_total(endowed.drop_last()) + endowed.last().1
    }
}

/// The sum of the amounts a genesis endowment list gives to `account`.
pub open spec fn endowment_of(endowed: Seq<(AccountId, Balance)>, account: AccountId) -> int
    decreases endowed.len(),
{
    if endowed.len() == 0 {
        0
    } else {
        endowment_of(endowed.drop_last(), account) + if endowed.last().0 == account {
            endowed.last().1 as int
        } else {
            0
        }
    }
}

proof fn lemma_endowment_of_bounded(endowed: Seq<(AccountId, Balance)>, account: AccountId)
    ensures
        0 <= endowment_of(endowed, account) <= endowment_total(endowed),
    decreases endowed.len(),
{
    if endowed.len() > 0 {
        lemma_endowment_of_bounded(endowed.drop_last(), account);
    }
}

proof fn lemma_endowment_prefix_monotone(endowed: Seq<(AccountId, Balance)>, i: int, j: int)
    requires
        0 <= i <= j <= endowed.len(),
    ensures
        endowment_total(endowed.take(i)) <= endowment_total(endowed.take(j)),
    decreases j - i,
{
    if i < j {
        lemma_endowment_prefix_monotone(endowed, i, j - 1);
        assert(endowed.take(j).drop_last() =~= endowed.take(j - 1));
    }
}

/// The ledger after `amount` moved from the free balance of `from` to that of `to`,
/// as seen from account `x`.
pub open spec fn paid(l: AccountLedger, x: AccountId, from: AccountId, to: AccountId, amount: int) -> AccountLedger {
    AccountLedger {
        free: (l.free - (if x == from {
            amount
        } else {
            0
        }) + (if x == to {
            amount
        } else {
            0
        })) as u128,
        locked: l.locked,
    }
}

/// The ledger after three successive payments out of `payer`, as seen from account `x`.
pub open spec fn paid_thrice(
    l: AccountLedger,
    x: AccountId,
    payer: AccountId,
    legs: (AccountId, AccountId, AccountId),
    amounts: (Balance, Balance, Balance),
) -> AccountLedger {
    paid(
        paid(paid(l, x, payer, legs.0, amounts.0 as int), x, payer, legs.1, amounts.1 as int),
        x,
        payer,
        legs.2,
        amounts.2 as int,
    )
}

/// Whether a validator's routing list names `subnet_id`.
fn routes_subnet(routing_subnets: &Vec<SubnetId>, subnet_id: SubnetId) -> (r: bool)
    ensures
        r == routing_subnets@.contains(subnet_id),
{
    let mut i: usize = 0;
    while i < routing_subnets.len()
        invariant
            0 <= i <= routing_subnets@.len(),
            forall|j: int| 0 <= j < i ==> #[trigger] routing_subnets@[j] != subnet_id,
        decreases routing_subnets@.len() - i,
    {
        if routing_subnets[i] == subnet_id {
            assert(routing_subnets@[i as int] == subnet_id);
            return true;
        }
        i = i + 1;
    }
    false
}

/// Minimal state machine for Qubitum protocol transitions.
#[derive(Clone, Debug, PartialEq, Eq)]
pub struct ProtocolState {
    pub treasury_account: AccountId,
    accounts: Vec<(AccountId, AccountLedger)>,
    pub subnets: BTreeMap<SubnetId, SubnetConfig>,
    pub miners: BTreeMap<MinerId, MinerRegistration>,
    pub validators: BTreeMap<ValidatorId, ValidatorRegistration>,
    pub records: BTreeMap<RequestId, InferenceRecord>,
    pub total_burned: Balance,
    next_subnet_id: SubnetId,
    next_miner_id: MinerId,
    next_validator_id: ValidatorId,
}

impl ProtocolState {
    /// The treasury account of the state.
    pub closed spec fn spec_treasury(&self) -> AccountId {
        self.treasury_account
    }

    /// The registered subnets.
    pub closed spec fn spec_subnets(&self) -> Map<SubnetId, SubnetConfig> {
        self.subnets@
    }

    /// The registered miners.
    pub closed spec fn spec_miners(&self) -> Map<MinerId, MinerRegistration> {
        self.miners@
    }

    /// The registered validators.
    pub closed spec fn spec_validators(&self) -> Map<ValidatorId, ValidatorRegistration> {
        self.validators@
    }

    /// The recorded inferences.
    pub closed spec fn spec_records(&self) -> Map<RequestId, InferenceRecord> {
        self.records@
    }

    /// The QBT burned so far.
    pub closed spec fn spec_total_burned(&self) -> Balance {
        self.total_burned
    }

    /// The ledger of `account` (empty when the account never held anything).
    pub closed spec fn spec_ledger(&self, account: AccountId) -> AccountLedger {
        lookup_ledger(self.accounts@, account)
    }

    /// QBT held in all ledgers, free and locked.
    pub closed spec fn held(&self) -> int {
        sum_totals(self.accounts@)
    }

    /// QBT held plus QBT burned: what the state accounts for in total.
    pub open spec fn supply(&self) -> int {
        self.held() + self.spec_total_burned()
    }

    /// The identifier the next created subnet receives.
    pub closed spec fn spec_next_subnet_id(&self) -> SubnetId {
        self.next_subnet_id
    }

    /// The identifier the next registered miner receives.
    pub closed spec fn spec_next_miner_id(&self) -> MinerId {
        self.next_miner_id
    }

    /// The identifier the next registered validator receives.
    pub closed spec fn spec_next_validator_id(&self) -> ValidatorId {
        self.next_validator_id
    }

    /// Well-formedness: one ledger per account, the accounted supply fits a balance, and every
    /// registered identifier lies below the next one to be handed out.
    pub closed spec fn wf(&self) -> bool {
        &&& distinct_accounts(self.accounts@)
        &&& self.supply() <= u128::MAX
        &&& forall|id: SubnetId| #[trigger] self.subnets@.contains_key(id) ==> id < self.next_subnet_id
        &&& forall|id: MinerId| #[trigger] self.miners@.contains_key(id) ==> id < self.next_miner_id
        &&& forall|id: ValidatorId| #[trigger]
            self.validators@.contains_key(id) ==> id < self.next_validator_id
    }

    /// Two states agree on everything but the ledgers and the burned total.
    pub open spec fn registries_unchanged(a: ProtocolState, b: ProtocolState) -> bool {
        &&& a.spec_treasury() == b.spec_treasury()
        &&& a.spec_subnets() == b.spec_subnets()
        &&& a.spec_miners() == b.spec_miners()
        &&& a.spec_validators() == b.spec_validators()
        &&& a.spec_records() == b.spec_records()
        &&& a.spec_next_subnet_id() == b.spec_next_subnet_id()
        &&& a.spec_next_miner_id() == b.spec_next_miner_id()
        &&& a.spec_next_validator_id() == b.spec_next_validator_id()
    }

    /// `b` is `a` after burning `amount` from the free balance of `account`.
    pub open spec fn burned_free(a: ProtocolState, b: ProtocolState, account: AccountId, amount: Balance) -> bool {
        &&& forall|x: AccountId| #[trigger]
            b.spec_ledger(x) == if x == account {
                AccountLedger {
                    free: (a.spec_ledger(account).free - amount) as u128,
                    locked: a.spec_ledger(account).locked,
                }
            } else {
                a.spec_ledger(x)
            }
        &&& b.spec_total_burned() == a.spec_total_burned() + amount
    }

    /// `b` is `a` after moving `amount` of the free balance of `account` into its locked balance.
    pub open spec fn locked_free(a: ProtocolState, b: ProtocolState, account: AccountId, amount: Balance) -> bool {
        &&& forall|x: AccountId| #[trigger]
            b.spec_ledger(x) == if x == account {
                AccountLedger {
                    free: (a.spec_ledger(account).free - amount) as u128,
                    locked: (a.spec_ledger(account).locked + amount) as u128,
                }
            } else {
                a.spec_ledger(x)
            }
        &&& b.spec_total_burned() == a.spec_total_burned()
    }

    /// Every ledger holds at most what the state accounts for, and a well-formed state
    /// accounts for no more than a balance can hold.
    pub proof fn lemma_ledger_within_supply(&self, account: AccountId)
        ensures
            0 <= ledger_total(self.spec_ledger(account)) <= self.held(),
            0 <= self.held(),
            ledger_total(self.spec_ledger(account)) <= self.supply(),
            self.wf() ==> self.supply() <= u128::MAX,
    {
        lemma_lookup_within_sum(self.accounts@, account);
    }

    /// The position of the last ledger entry of `account`, if any.
    fn find_account(&self, account: &AccountId) -> (r: Option<usize>)
        ensures
            match r {
                Some(i) => i < self.accounts@.len() && self.accounts@[i as int].0 == *account
                    && forall|j: int|
                    i < j < self.accounts@.len() ==> #[trigger] self.accounts@[j].0 != *account,
                None => forall|i: int|
                    0 <= i < self.accounts@.len() ==> #[trigger] self.accounts@[i].0 != *account,
            },
    {
        let mut i: usize = self.accounts.len();
        while i > 0
            invariant
                0 <= i <= self.accounts@.len(),
                forall|j: int| i <= j < self.accounts@.len() ==> #[trigger] self.accounts@[j].0 != *account,
            decreases i,
        {
            if commitments_equal(&self.accounts[i - 1].0, account) {
                return Some(i - 1);
            }
            i = i - 1;
        }
        None
    }

    /// Replaces the ledger of `account`.
    fn write_ledger(&mut self, account: AccountId, ledger: AccountLedger)
        requires
            distinct_accounts(old(self).accounts@),
        ensures
            distinct_accounts(final(self).accounts@),
            forall|x: AccountId| #[trigger]
                final(self).spec_ledger(x) == if x == account {
                    ledger
                } else {
                    old(self).spec_ledger(x)
                },
            final(self).held() == old(self).held() - ledger_total(old(self).spec_ledger(account))
                + ledger_total(ledger),
            Self::registries_unchanged(*old(self), *final(self)),
            final(self).spec_total_burned() == old(self).spec_total_burned(),
    {
        match self.find_account(&account) {
            Some(i) => {
                proof {
                    lemma_lookup_last(self.accounts@, i as int);
                    lemma_update_entry(self.accounts@, i as int, ledger);
                }
                self.accounts.set(i, (account, ledger));
            },
            None => {
                proof {
                    lemma_lookup_absent(self.accounts@, account);
                    lemma_push_entry(self.accounts@, account, ledger);
                }
                self.accounts.push((account, ledger));
            },
        }
    }

    /// Creates an empty state whose treasury is `treasury_account`.
    pub fn new(treasury_account: AccountId) -> (r: Self)
        ensures
            r.wf(),
            r.spec_treasury() == treasury_account,
            r.spec_subnets() == Map::<SubnetId, SubnetConfig>::empty(),
            r.spec_miners() == Map::<MinerId, MinerRegistration>::empty(),
            r.spec_validators() == Map::<ValidatorId, ValidatorRegistration>::empty(),
            r.spec_records() == Map::<RequestId, InferenceRecord>::empty(),
            r.spec_total_burned() == 0,
            forall|x: AccountId| #[trigger] r.spec_ledger(x) == empty_ledger(),
            r.supply() == 0,
            r.spec_next_subnet_id() == 0,
            r.spec_next_miner_id() == 0,
            r.spec_next_validator_id() == 0,
    {
        ProtocolState {
            treasury_account,
            accounts: Vec::new(),
            subnets: BTreeMap::new(),
            miners: BTreeMap::new(),
            validators: BTreeMap::new(),
            records: BTreeMap::new(),
            total_burned: 0,
            next_subnet_id: 0,
            next_miner_id: 0,
            next_validator_id: 0,
        }
    }

    /// Adds `amount` to the free balance of `account`.
    fn credit(&mut self, account: AccountId, amount: Balance) -> (r: Result<(), ProtocolError>)
        requires
            old(self).wf(),
            old(self).supply() + amount <= u128::MAX,
        ensures
            final(self).wf(),
            r == Ok::<(), ProtocolError>(()),
            forall|x: AccountId| #[trigger]
                final(self).spec_ledger(x) == if x == account {
                    AccountLedger {
                        free: (old(self).spec_ledger(account).free + amount) as u128,
                        locked: old(self).spec_ledger(account).locked,
                    }
                } else {
                    old(self).spec_ledger(x)
                },
            final(self).supply() == old(self).supply() + amount,
            Self::registries_unchanged(*old(self), *final(self)),
            final(self).spec_total_burned() == old(self).spec_total_burned(),
    {
        let ledger = self.ledger(&account);
        proof {
            self.lemma_ledger_within_supply(account);
        }
        let free = match ledger.free.checked_add(amount) {
            Some(v) => v,
            None => {
                return Err(ProtocolError::ArithmeticOverflow);
            },
        };
        self.write_ledger(account, AccountLedger { free, locked: ledger.locked });
        Ok(())
    }

    /// Removes `amount` from the free balance of `account`, which must hold it.
    fn debit_free(&mut self, account: AccountId, amount: Balance) -> (r: Result<(), ProtocolError>)
        requires
            old(self).wf(),
        ensures
            final(self).wf(),
            old(self).spec_ledger(account).free < amount ==> r == Err::<(), ProtocolError>(
                ProtocolError::InsufficientBalance,
            ) && *final(self) == *old(self),
            old(self).spec_ledger(account).free >= amount ==> r == Ok::<(), ProtocolError>(())
                && forall|x: AccountId| #[trigger]
                final(self).spec_ledger(x) == if x == account {
                    AccountLedger {
                        free: (old(self).spec_ledger(account).free - amount) as u128,
                        locked: old(self).spec_ledger(account).locked,
                    }
                } else {
                    old(self).spec_ledger(x)
                },
            r is Ok ==> final(self).held() == old(self).held() - amount,
            Self::registries_unchanged(*old(self), *final(self)),
            final(self).spec_total_burned() == old(self).spec_total_burned(),
    {
        let ledger = self.ledger(&account);
        if ledger.free < amount {
            return Err(ProtocolError::InsufficientBalance);
        }
        self.write_ledger(account, AccountLedger { free: ledger.free - amount, locked: ledger.locked });
        Ok(())
    }

    /// Burns `amount` of the free balance of `account`.
    fn burn(&mut self, account: AccountId, amount: Balance) -> (r: Result<(), ProtocolError>)
        requires
            old(self).wf(),
        ensures
            final(self).wf(),
            final(self).supply() == old(self).supply(),
            old(self).spec_ledger(account).free < amount ==> r == Err::<(), ProtocolError>(
                ProtocolError::InsufficientBalance,
            ) && *final(self) == *old(self),
            old(self).spec_ledger(account).free >= amount ==> r == Ok::<(), ProtocolError>(())
                && Self::burned_free(*old(self), *final(self), account, amount),
            Self::registries_unchanged(*old(self), *final(self)),
    {
        match self.debit_free(account, amount) {
            Err(e) => {
                return Err(e);
            },
            Ok(_) => {},
        }
        proof {
            old(self).lemma_ledger_within_supply(account);
        }
        let ghost mid = *self;
        self.total_burned = match self.total_burned.checked_add(amount) {
            Some(v) => v,
            None => {
                return Err(ProtocolError::ArithmeticOverflow);
            },
        };
        assert forall|x: AccountId| #[trigger] self.spec_ledger(x) == mid.spec_ledger(x) by {}
        Ok(())
    }

    /// Burns `amount` of the locked balance of `account`.
    fn burn_locked(&mut self, account: AccountId, amount: Balance) -> (r: Result<(), ProtocolError>)
        requires
            old(self).wf(),
        ensures
            final(self).wf(),
            final(self).supply() == old(self).supply(),
            old(self).spec_ledger(account).locked < amount ==> r == Err::<(), ProtocolError>(
                ProtocolError::InsufficientBalance,
            ) && *final(self) == *old(self),
            old(self).spec_ledger(account).locked >= amount ==> r == Ok::<(), ProtocolError>(())
                && final(self).spec_total_burned() == old(self).spec_total_burned() + amount && forall|
                x: AccountId,
            | #[trigger]
                final(self).spec_ledger(x) == if x == account {
                    AccountLedger {
                        free: old(self).spec_ledger(account).free,
                        locked: (old(self).spec_ledger(account).locked - amount) as u128,
                    }
                } else {
                    old(self).spec_ledger(x)
                },
            Self::registries_unchanged(*old(self), *final(self)),
    {
        let ledger = self.ledger(&account);
        if ledger.locked < amount {
            return Err(ProtocolError::InsufficientBalance);
        }
        proof {
            self.lemma_ledger_within_supply(account);
        }
        let burned = match self.total_burned.checked_add(amount) {
            Some(v) => v,
            None => {
                return Err(ProtocolError::ArithmeticOverflow);
            },
        };
        self.write_ledger(account, AccountLedger { free: ledger.free, locked: ledger.locked - amount });
        let ghost mid = *self;
        self.total_burned = burned;
        assert forall|x: AccountId| #[trigger] self.spec_ledger(x) == mid.spec_ledger(x) by {}
        Ok(())
    }

    /// Moves `amount` from the free balance of `from` to the free balance of `to`.
    fn transfer(&mut self, from: AccountId, to: AccountId, amount: Balance) -> (r: Result<
        (),
        ProtocolError,
    >)
        requires
            old(self).wf(),
        ensures
            final(self).wf(),
            final(self).supply() == old(self).supply(),
            old(self).spec_ledger(from).free < amount ==> r == Err::<(), ProtocolError>(
                ProtocolError::InsufficientBalance,
            ) && *final(self) == *old(self),
            old(self).spec_ledger(from).free >= amount ==> r == Ok::<(), ProtocolError>(())
                && forall|x: AccountId| #[trigger]
                final(self).spec_ledger(x) == paid(old(self).spec_ledger(x), x, from, to, amount as int),
            old(self).spec_ledger(from).free >= amount ==> forall|x: AccountId| #[trigger]
                final(self).spec_ledger(x).free == old(self).spec_ledger(x).free - (if x == from {
                    amount as int
                } else {
                    0
                }) + (if x == to {
                    amount as int
                } else {
                    0
                }),
            Self::registries_unchanged(*old(self), *final(self)),
            final(self).spec_total_burned() == old(self).spec_total_burned(),
    {
        match self.debit_free(from, amount) {
            Err(e) => {
                return Err(e);
            },
            Ok(_) => {},
        }
        let ghost debited = *self;
        proof {
            debited.lemma_ledger_within_supply(to);
        }
        let r = self.credit(to, amount);
        proof {
            assert forall|x: AccountId| #[trigger]
                self.spec_ledger(x).free == old(self).spec_ledger(x).free - (if x == from {
                    amount as int
                } else {
                    0
                }) + (if x == to {
                    amount as int
                } else {
                    0
                }) by {
                assert(debited.spec_ledger(x) == if x == from {
                    AccountLedger {
                        free: (old(self).spec_ledger(from).free - amount) as u128,
                        locked: old(self).spec_ledger(from).locked,
                    }
                } else {
                    old(self).spec_ledger(x)
                });
            }
        }
        r
    }

    /// Moves `amount` of the free balance of `account` into its locked balance.
    fn lock(&mut self, account: AccountId, amount: Balance) -> (r: Result<(), ProtocolError>)
        requires
            old(self).wf(),
        ensures
            final(self).wf(),
            final(self).supply() == old(self).supply(),
            old(self).spec_ledger(account).free < amount ==> r == Err::<(), ProtocolError>(
                ProtocolError::InsufficientBalance,
            ) && *final(self) == *old(self),
            old(self).spec_ledger(account).free >= amount ==> r == Ok::<(), ProtocolError>(())
                && Self::locked_free(*old(self), *final(self), account, amount),
            Self::registries_unchanged(*old(self), *final(self)),
    {
        match self.debit_free(account, amount) {
            Err(e) => {
                return Err(e);
            },
            Ok(_) => {},
        }
        let ledger = self.ledger(&account);
        proof {
            self.lemma_ledger_within_supply(account);
        }
        let locked = match ledger.locked.checked_add(amount) {
            Some(v) => v,
            None => {
                return Err(ProtocolError::ArithmeticOverflow);
            },
        };
        self.write_ledger(account, AccountLedger { free: ledger.free, locked });
        Ok(())
    }

    /// Moves `amount` of the locked balance of `account` back to its free balance.
    fn unlock(&mut self, account: AccountId, amount: Balance) -> (r: Result<(), ProtocolError>)
        requires
            old(self).wf(),
        ensures
            final(self).wf(),
            final(self).supply() == old(self).supply(),
            old(self).spec_ledger(account).locked < amount ==> r == Err::<(), ProtocolError>(
                ProtocolError::InsufficientBalance,
            ) && *final(self) == *old(self),
            old(self).spec_ledger(account).locked >= amount ==> r == Ok::<(), ProtocolError>(())
                && forall|x: AccountId| #[trigger]
                final(self).spec_ledger(x) == if x == account {
                    AccountLedger {
                        free: (old(self).spec_ledger(account).free + amount) as u128,
                        locked: (old(self).spec_ledger(account).locked - amount) as u128,
                    }
                } else {
                    old(self).spec_ledger(x)
                },
            Self::registries_unchanged(*old(self), *final(self)),
            final(self).spec_total_burned() == old(self).spec_total_burned(),
    {
        let ledger = self.ledger(&account);
        if ledger.locked < amount {
            return Err(ProtocolError::InsufficientBalance);
        }
        proof {
            self.lemma_ledger_within_supply(account);
        }
        let free = match ledger.free.checked_add(amount) {
            Some(v) => v,
            None => {
                return Err(ProtocolError::ArithmeticOverflow);
            },
        };
        self.write_ledger(account, AccountLedger { free, locked: ledger.locked - amount });
        Ok(())
    }

    /// Two states hold the same ledgers and the same burned total.
    pub open spec fn ledgers_unchanged(a: ProtocolState, b: ProtocolState) -> bool {
        &&& forall|x: AccountId| #[trigger] b.spec_ledger(x) == a.spec_ledger(x)
        &&& b.spec_total_burned() == a.spec_total_burned()
    }

    /// Two states agree on everything but the subnet registry and the ledgers.
    pub open spec fn same_but_subnets(a: ProtocolState, b: ProtocolState) -> bool {
        &&& a.spec_treasury() == b.spec_treasury()
        &&& a.spec_miners() == b.spec_miners()
        &&& a.spec_validators() == b.spec_validators()
        &&& a.spec_records() == b.spec_records()
        &&& a.spec_next_miner_id() == b.spec_next_miner_id()
        &&& a.spec_next_validator_id() == b.spec_next_validator_id()
    }

    /// Two states agree on everything but the miner registry and the ledgers.
    pub open spec fn same_but_miners(a: ProtocolState, b: ProtocolState) -> bool {
        &&& a.spec_treasury() == b.spec_treasury()
        &&& a.spec_subnets() == b.spec_subnets()
        &&& a.spec_validators() == b.spec_validators()
        &&& a.spec_records() == b.spec_records()
        &&& a.spec_next_subnet_id() == b.spec_next_subnet_id()
        &&& a.spec_next_validator_id() == b.spec_next_validator_id()
    }

    /// Two states agree on everything but the validator registry and the ledgers.
    pub open spec fn same_but_validators(a: ProtocolState, b: ProtocolState) -> bool {
        &&& a.spec_treasury() == b.spec_treasury()
        &&& a.spec_subnets() == b.spec_subnets()
        &&& a.spec_miners() == b.spec_miners()
        &&& a.spec_records() == b.spec_records()
        &&& a.spec_next_subnet_id() == b.spec_next_subnet_id()
        &&& a.spec_next_miner_id() == b.spec_next_miner_id()
    }

    /// Two states agree on everything but the inference records and the ledgers.
    pub open spec fn same_but_records(a: ProtocolState, b: ProtocolState) -> bool {
        &&& a.spec_treasury() == b.spec_treasury()
        &&& a.spec_subnets() == b.spec_subnets()
        &&& a.spec_miners() == b.spec_miners()
        &&& a.spec_validators() == b.spec_validators()
        &&& a.spec_next_subnet_id() == b.spec_next_subnet_id()
        &&& a.spec_next_miner_id() == b.spec_next_miner_id()
        &&& a.spec_next_validator_id() == b.spec_next_validator_id()
    }

    /// What `create_subnet(owner, domain, creation_burn)` does, taking `a` to `b` with result `r`.
    pub open spec fn create_subnet_post(
        a: ProtocolState,
        b: ProtocolState,
        owner: AccountId,
        domain: SubnetDomain,
        creation_burn: Balance,
        r: Result<SubnetId, ProtocolError>,
    ) -> bool {
        if creation_burn < SubnetPolicy::spec_qubitum().creation_burn {
            r == Err::<SubnetId, ProtocolError>(ProtocolError::InvalidCreationBurn) && b == a
        } else if a.spec_ledger(owner).free < creation_burn {
            r == Err::<SubnetId, ProtocolError>(ProtocolError::InsufficientBalance) && b == a
        } else {
            &&& Self::burned_free(a, b, owner, creation_burn)
            &&& Self::same_but_subnets(a, b)
            &&& if a.spec_next_subnet_id() == u16::MAX {
                &&& r == Err::<SubnetId, ProtocolError>(ProtocolError::ArithmeticOverflow)
                &&& b.spec_subnets() == a.spec_subnets()
                &&& b.spec_next_subnet_id() == a.spec_next_subnet_id()
            } else {
                let id = a.spec_next_subnet_id();
                &&& r == Ok::<SubnetId, ProtocolError>(id)
                &&& b.spec_subnets() == a.spec_subnets().insert(
                    id,
                    SubnetConfig {
                        id,
                        owner,
                        domain,
                        policy: SubnetPolicy::spec_qubitum(),
                        active: true,
                    },
                )
                &&& b.spec_next_subnet_id() == id + 1
            }
        }
    }

    /// What `register_miner` does, taking `a` to `b` with result `r`.
    pub open spec fn register_miner_post(
        a: ProtocolState,
        b: ProtocolState,
        operator: AccountId,
        subnet_id: SubnetId,
        model_commitment: Commitment,
        proof_system: ProofSystem,
        r: Result<MinerId, ProtocolError>,
    ) -> bool {
        if !a.spec_subnets().contains_key(subnet_id) {
            r == Err::<MinerId, ProtocolError>(ProtocolError::UnknownSubnet) && b == a
        } else {
            let policy = a.spec_subnets()[subnet_id].policy;
            if policy.proof_system != proof_system {
                r == Err::<MinerId, ProtocolError>(ProtocolError::ProofSystemMismatch) && b == a
            } else if is_zero_commitment(model_commitment) {
                r == Err::<MinerId, ProtocolError>(ProtocolError::MissingCommitment) && b == a
            } else if a.spec_ledger(operator).free < policy.miner_bond.registration_burn {
                r == Err::<MinerId, ProtocolError>(ProtocolError::InsufficientBalance) && b == a
            } else {
                &&& Self::burned_free(a, b, operator, policy.miner_bond.registration_burn)
                &&& Self::same_but_miners(a, b)
                &&& if a.spec_next_miner_id() == u64::MAX {
                    &&& r == Err::<MinerId, ProtocolError>(ProtocolError::ArithmeticOverflow)
                    &&& b.spec_miners() == a.spec_miners()
                    &&& b.spec_next_miner_id() == a.spec_next_miner_id()
                } else {
                    let id = a.spec_next_miner_id();
                    &&& r == Ok::<MinerId, ProtocolError>(id)
                    &&& b.spec_miners() == a.spec_miners().insert(
                        id,
                        MinerRegistration {
                            id,
                            operator,
                            subnet_id,
                            model_commitment,
                            proof_system,
                            bond: 0,
                            status: RegistryStatus::Pending,
                            shielded_identity_commitment: None,
                            endpoint_commitment: None,
                        },
                    )
                    &&& b.spec_next_miner_id() == id + 1
                }
            }
        }
    }

    /// What `activate_miner(miner_id, bond)` does, taking `a` to `b` with result `r`.
    pub open spec fn activate_miner_post(
        a: ProtocolState,
        b: ProtocolState,
        miner_id: MinerId,
        bond: Balance,
        r: Result<(), ProtocolError>,
    ) -> bool {
        if !a.spec_miners().contains_key(miner_id) {
            r == Err::<(), ProtocolError>(ProtocolError::UnknownMiner) && b == a
        } else {
            let miner = a.spec_miners()[miner_id];
            if !a.spec_subnets().contains_key(miner.subnet_id) {
                r == Err::<(), ProtocolError>(ProtocolError::UnknownSubnet) && b == a
            } else if !a.spec_subnets()[miner.subnet_id].policy.miner_bond.bond_in_bounds(bond) {
                r == Err::<(), ProtocolError>(ProtocolError::InvalidBond) && b == a
            } else if a.spec_ledger(miner.operator).free < bond {
                r == Err::<(), ProtocolError>(ProtocolError::InsufficientBalance) && b == a
            } else {
                &&& r == Ok::<(), ProtocolError>(())
                &&& Self::locked_free(a, b, miner.operator, bond)
                &&& Self::same_but_miners(a, b)
                &&& b.spec_next_miner_id() == a.spec_next_miner_id()
                &&& b.spec_miners() == a.spec_miners().insert(
                    miner_id,
                    MinerRegistration { bond, status: RegistryStatus::Active, ..miner },
                )
            }
        }
    }

    /// What `begin_miner_exit(miner_id, current_block)` does, taking `a` to `b` with result `r`.
    pub open spec fn begin_miner_exit_post(
        a: ProtocolState,
        b: ProtocolState,
        miner_id: MinerId,
        current_block: BlockNumber,
        r: Result<(), ProtocolError>,
    ) -> bool {
        if !a.spec_miners().contains_key(miner_id) {
            r == Err::<(), ProtocolError>(ProtocolError::UnknownMiner) && b == a
        } else {
            let miner = a.spec_miners()[miner_id];
            if !a.spec_subnets().contains_key(miner.subnet_id) {
                r == Err::<(), ProtocolError>(ProtocolError::UnknownSubnet) && b == a
            } else {
                match a.spec_subnets()[miner.subnet_id].policy.miner_bond.spec_exit_available_at(
                    current_block,
                ) {
                    Err(e) => r == Err::<(), ProtocolError>(e) && b == a,
                    Ok(at) => {
                        &&& r == Ok::<(), ProtocolError>(())
                        &&& Self::ledgers_unchanged(a, b)
                        &&& Self::same_but_miners(a, b)
                        &&& b.spec_next_miner_id() == a.spec_next_miner_id()
                        &&& b.spec_miners() == a.spec_miners().insert(
                            miner_id,
                            MinerRegistration {
                                status: RegistryStatus::Exiting { exit_available_at: at },
                                ..miner
                            },
                        )
                    },
                }
            }
        }
    }

    /// What `complete_miner_exit(miner_id, current_block)` does, taking `a` to `b` with result `r`.
    pub open spec fn complete_miner_exit_post(
        a: ProtocolState,
        b: ProtocolState,
        miner_id: MinerId,
        current_block: BlockNumber,
        r: Result<(), ProtocolError>,
    ) -> bool {
        if !a.spec_miners().contains_key(miner_id) {
            r == Err::<(), ProtocolError>(ProtocolError::UnknownMiner) && b == a
        } else {
            let miner = a.spec_miners()[miner_id];
            match miner.status {
                RegistryStatus::Exiting { exit_available_at } => if current_block
                    < exit_available_at {
                    r == Err::<(), ProtocolError>(ProtocolError::CooldownNotComplete) && b == a
                } else if a.spec_ledger(miner.operator).locked < miner.bond {
                    r == Err::<(), ProtocolError>(ProtocolError::InsufficientBalance) && b == a
                } else {
                    &&& r == Ok::<(), ProtocolError>(())
                    &&& forall|x: AccountId| #[trigger]
                        b.spec_ledger(x) == if x == miner.operator {
                            AccountLedger {
                                free: (a.spec_ledger(x).free + miner.bond) as u128,
                                locked: (a.spec_ledger(x).locked - miner.bond) as u128,
                            }
                        } else {
                            a.spec_ledger(x)
                        }
                    &&& b.spec_total_burned() == a.spec_total_burned()
                    &&& Self::same_but_miners(a, b)
                    &&& b.spec_next_miner_id() == a.spec_next_miner_id()
                    &&& b.spec_miners() == a.spec_miners().insert(
                        miner_id,
                        MinerRegistration { bond: 0, status: RegistryStatus::Disabled, ..miner },
                    )
                },
                _ => r == Err::<(), ProtocolError>(ProtocolError::NotActive) && b == a,
            }
        }
    }

    /// What `register_validator(operator, subnet_id, stake)` does, taking `a` to `b` with
    /// result `r`.
    pub open spec fn register_validator_post(
        a: ProtocolState,
        b: ProtocolState,
        operator: AccountId,
        subnet_id: SubnetId,
        stake: Balance,
        r: Result<ValidatorId, ProtocolError>,
    ) -> bool {
        if !a.spec_subnets().contains_key(subnet_id) {
            r == Err::<ValidatorId, ProtocolError>(ProtocolError::UnknownSubnet) && b == a
        } else if stake < a.spec_subnets()[subnet_id].policy.min_validator_stake {
            r == Err::<ValidatorId, ProtocolError>(ProtocolError::InvalidStake) && b == a
        } else if a.spec_ledger(operator).free < stake {
            r == Err::<ValidatorId, ProtocolError>(ProtocolError::InsufficientBalance) && b == a
        } else {
            &&& Self::locked_free(a, b, operator, stake)
            &&& Self::same_but_validators(a, b)
            &&& if a.spec_next_validator_id() == u64::MAX {
                &&& r == Err::<ValidatorId, ProtocolError>(ProtocolError::ArithmeticOverflow)
                &&& b.spec_validators() == a.spec_validators()
                &&& b.spec_next_validator_id() == a.spec_next_validator_id()
            } else {
                let id = a.spec_next_validator_id();
                let v = b.spec_validators()[id];
                &&& r == Ok::<ValidatorId, ProtocolError>(id)
                &&& b.spec_validators() == a.spec_validators().insert(id, v)
                &&& v.id == id
                &&& v.operator == operator
                &&& v.staked == stake
                &&& v.routing_subnets@ == seq![subnet_id]
                &&& v.status == RegistryStatus::Active
                &&& b.spec_next_validator_id() == id + 1
            }
        }
    }

    /// The checks a submission passes before any payment moves: on success the miner's
    /// operator, the validator's operator and the settlement.
    pub open spec fn proof_admission(
        a: ProtocolState,
        submission: InferenceProofSubmission,
        payment: Balance,
        validator_fee_bps: u16,
        treasury_fee_bps: u16,
    ) -> Result<(AccountId, AccountId, InferenceSettlement), ProtocolError> {
        if !a.spec_subnets().contains_key(submission.subnet_id) {
            Err(ProtocolError::UnknownSubnet)
        } else if submission.shape_error(a.spec_subnets()[submission.subnet_id].policy) is Some {
            Err(submission.shape_error(a.spec_subnets()[submission.subnet_id].policy).unwrap())
        } else if !a.spec_miners().contains_key(submission.miner_id) {
            Err(ProtocolError::UnknownMiner)
        } else if a.spec_miners()[submission.miner_id].subnet_id != submission.subnet_id
            || a.spec_miners()[submission.miner_id].status != RegistryStatus::Active {
            Err(ProtocolError::NotActive)
        } else if !a.spec_validators().contains_key(submission.validator_id) {
            Err(ProtocolError::UnknownValidator)
        } else if !a.spec_validators()[submission.validator_id].routing_subnets@.contains(
            submission.subnet_id,
        ) || a.spec_validators()[submission.validator_id].status != RegistryStatus::Active {
            Err(ProtocolError::NotActive)
        } else {
            match spec_settle_inference_payment(payment, validator_fee_bps, treasury_fee_bps) {
                Err(e) => Err(e),
                Ok(settlement) => Ok(
                    (
                        a.spec_miners()[submission.miner_id].operator,
                        a.spec_validators()[submission.validator_id].operator,
                        settlement,
                    ),
                ),
            }
        }
    }

    /// How much the free balance of `x` changes when a valid proof's payment is settled: the
    /// payer pays the whole split, and the miner operator, the validator operator and the
    /// treasury each receive their part (zero when the proof is not admitted).
    pub open spec fn settlement_credit(
        a: ProtocolState,
        payer: AccountId,
        submission: InferenceProofSubmission,
        payment: Balance,
        validator_fee_bps: u16,
        treasury_fee_bps: u16,
        x: AccountId,
    ) -> int {
        match Self::proof_admission(a, submission, payment, validator_fee_bps, treasury_fee_bps) {
            Ok((miner_operator, validator_operator, s)) => (if x == miner_operator {
                s.miner_payment as int
            } else {
                0
            }) + (if x == validator_operator {
                s.validator_fee as int
            } else {
                0
            }) + (if x == a.spec_treasury() {
                s.treasury_fee as int
            } else {
                0
            }) - (if x == payer {
                s.miner_payment + s.validator_fee + s.treasury_fee
            } else {
                0
            }),
            Err(_) => 0,
        }
    }

    /// What `submit_valid_proof` does, taking `a` to `b` with result `r`.
    pub open spec fn submit_valid_proof_post(
        a: ProtocolState,
        b: ProtocolState,
        payer: AccountId,
        submission: InferenceProofSubmission,
        payment: Balance,
        validator_fee_bps: u16,
        treasury_fee_bps: u16,
        r: Result<InferenceRecord, ProtocolError>,
    ) -> bool {
        match Self::proof_admission(a, submission, payment, validator_fee_bps, treasury_fee_bps) {
            Err(e) => r == Err::<InferenceRecord, ProtocolError>(e) && b == a,
            Ok((miner_operator, validator_operator, s)) => {
                let legs = (miner_operator, validator_operator, a.spec_treasury());
                let l0 = a.spec_ledger(payer);
                let l1 = paid(l0, payer, payer, legs.0, s.miner_payment as int);
                let l2 = paid(l1, payer, payer, legs.1, s.validator_fee as int);
                if l0.free < s.miner_payment {
                    r == Err::<InferenceRecord, ProtocolError>(ProtocolError::InsufficientBalance)
                        && b == a
                } else {
                    &&& b.spec_total_burned() == a.spec_total_burned()
                    &&& if l1.free < s.validator_fee {
                        &&& r == Err::<InferenceRecord, ProtocolError>(
                            ProtocolError::InsufficientBalance,
                        )
                        &&& Self::registries_unchanged(a, b)
                        &&& forall|x: AccountId| #[trigger]
                            b.spec_ledger(x) == paid(
                                a.spec_ledger(x),
                                x,
                                payer,
                                legs.0,
                                s.miner_payment as int,
                            )
                    } else if l2.free < s.treasury_fee {
                        &&& r == Err::<InferenceRecord, ProtocolError>(
                            ProtocolError::InsufficientBalance,
                        )
                        &&& Self::registries_unchanged(a, b)
                        &&& forall|x: AccountId| #[trigger]
                            b.spec_ledger(x) == paid(
                                paid(a.spec_ledger(x), x, payer, legs.0, s.miner_payment as int),
                                x,
                                payer,
                                legs.1,
                                s.validator_fee as int,
                            )
                    } else {
                        let record = InferenceRecord::spec_from_submission(submission);
                        &&& r == Ok::<InferenceRecord, ProtocolError>(record)
                        &&& Self::same_but_records(a, b)
                        &&& b.spec_records() == a.spec_records().insert(
                            submission.request_id,
                            record,
                        )
                        &&& forall|x: AccountId| #[trigger]
                            b.spec_ledger(x) == paid_thrice(
                                a.spec_ledger(x),
                                x,
                                payer,
                                legs,
                                (s.miner_payment, s.validator_fee, s.treasury_fee),
                            )
                    }
                }
            },
        }
    }

    /// What `slash_miner(miner_id, slash_bps)` does, taking `a` to `b` with result `r`.
    pub open spec fn slash_miner_post(
        a: ProtocolState,
        b: ProtocolState,
        miner_id: MinerId,
        slash_bps: u16,
        r: Result<Balance, ProtocolError>,
    ) -> bool {
        if !a.spec_miners().contains_key(miner_id) {
            r == Err::<Balance, ProtocolError>(ProtocolError::UnknownMiner) && b == a
        } else {
            let miner = a.spec_miners()[miner_id];
            if !a.spec_subnets().contains_key(miner.subnet_id) {
                r == Err::<Balance, ProtocolError>(ProtocolError::UnknownSubnet) && b == a
            } else {
                let policy = a.spec_subnets()[miner.subnet_id].policy.miner_bond;
                match policy.spec_slash_amount(miner.bond, slash_bps) {
                    Err(e) => r == Err::<Balance, ProtocolError>(e) && b == a,
                    Ok(amount) => if amount > miner.bond {
                        r == Err::<Balance, ProtocolError>(ProtocolError::ArithmeticOverflow) && b
                            == a
                    } else if a.spec_ledger(miner.operator).locked < amount {
                        r == Err::<Balance, ProtocolError>(ProtocolError::InsufficientBalance) && b
                            == a
                    } else {
                        let remaining = (miner.bond - amount) as u128;
                        &&& r == Ok::<Balance, ProtocolError>(amount)
                        &&& forall|x: AccountId| #[trigger]
                            b.spec_ledger(x) == if x == miner.operator {
                                AccountLedger {
                                    free: a.spec_ledger(x).free,
                                    locked: (a.spec_ledger(x).locked - amount) as u128,
                                }
                            } else {
                                a.spec_ledger(x)
                            }
                        &&& b.spec_total_burned() == a.spec_total_burned() + amount
                        &&& Self::same_but_miners(a, b)
                        &&& b.spec_next_miner_id() == a.spec_next_miner_id()
                        &&& b.spec_miners() == a.spec_miners().insert(
                            miner_id,
                            MinerRegistration {
                                bond: remaining,
                                status: if remaining < policy.min_bond {
                                    RegistryStatus::Slashed
                                } else {
                                    miner.status
                                },
                                ..miner
                            },
                        )
                    },
                }
            }
        }
    }

    /// A state whose ledgers hold the genesis endowments, with the rest of the initial supply
    /// credited to the treasury; fails when the endowments exceed the initial supply.
    pub fn with_genesis(treasury_account: AccountId, endowed: &[(AccountId, Balance)]) -> (r: Result<
        Self,
        ProtocolError,
    >)
        ensures
            endowment_total(endowed@) > INITIAL_SUPPLY ==> (r matches Err(e) && e
                == ProtocolError::ArithmeticOverflow),
            endowment_total(endowed@) <= INITIAL_SUPPLY ==> (r matches Ok(st) && {
                &&& st.wf()
                &&& st.spec_treasury() == treasury_account
                &&& st.spec_subnets() == Map::<SubnetId, SubnetConfig>::empty()
                &&& st.spec_miners() == Map::<MinerId, MinerRegistration>::empty()
                &&& st.spec_validators() == Map::<ValidatorId, ValidatorRegistration>::empty()
                &&& st.spec_records() == Map::<RequestId, InferenceRecord>::empty()
                &&& st.spec_total_burned() == 0
                &&& st.spec_next_subnet_id() == 0
                &&& st.spec_next_miner_id() == 0
                &&& st.spec_next_validator_id() == 0
                &&& st.supply() == INITIAL_SUPPLY
                &&& forall|x: AccountId| #[trigger]
                    st.spec_ledger(x) == unlocked_ledger(
                        endowment_of(endowed@, x) + if x == treasury_account {
                            INITIAL_SUPPLY - endowment_total(endowed@)
                        } else {
                            0
                        },
                    )
            }),
    {
        let mut state = Self::new(treasury_account);
        let mut issued: Balance = 0;
        let mut i: usize = 0;
        while i < endowed.len()
            invariant
                0 <= i <= endowed@.len(),
                issued == endowment_total(endowed@.take(i as int)),
                state.wf(),
                state.supply() == issued,
                state.spec_treasury() == treasury_account,
                state.spec_subnets() == Map::<SubnetId, SubnetConfig>::empty(),
                state.spec_miners() == Map::<MinerId, MinerRegistration>::empty(),
                state.spec_validators() == Map::<ValidatorId, ValidatorRegistration>::empty(),
                state.spec_records() == Map::<RequestId, InferenceRecord>::empty(),
                state.spec_total_burned() == 0,
                state.spec_next_subnet_id() == 0,
                state.spec_next_miner_id() == 0,
                state.spec_next_validator_id() == 0,
                forall|x: AccountId| #[trigger]
                    state.spec_ledger(x) == unlocked_ledger(endowment_of(endowed@.take(i as int), x)),
            decreases endowed@.len() - i,
        {
            let (account, amount) = endowed[i];
            proof {
                assert(endowed@.take(i + 1).drop_last() =~= endowed@.take(i as int));
                lemma_endowment_prefix_monotone(endowed@, i + 1, endowed@.len() as int);
                assert(endowed@.take(endowed@.len() as int) =~= endowed@);
                lemma_endowment_of_bounded(endowed@.take(i as int), account);
            }
            issued = match issued.checked_add(amount) {
                Some(v) => v,
                None => {
                    return Err(ProtocolError::ArithmeticOverflow);
                },
            };
            match state.credit(account, amount) {
                Err(e) => {
                    return Err(e);
                },
                Ok(_) => {},
            }
            proof {
                assert forall|x: AccountId| #[trigger]
                    state.spec_ledger(x) == unlocked_ledger(endowment_of(endowed@.take(i + 1), x)) by {
                    lemma_endowment_of_bounded(endowed@.take(i as int), x);
                }
            }
            i = i + 1;
        }
        proof {
            assert(endowed@.take(endowed@.len() as int) =~= endowed@);
        }
        if issued > INITIAL_SUPPLY {
            return Err(ProtocolError::ArithmeticOverflow);
        }
        let treasury_remainder = INITIAL_SUPPLY - issued;
        match state.credit(treasury_account, treasury_remainder) {
            Err(e) => {
                return Err(e);
            },
            Ok(_) => {},
        }
        proof {
            assert forall|x: AccountId| #[trigger]
                state.spec_ledger(x) == unlocked_ledger(
                    endowment_of(endowed@, x) + if x == treasury_account {
                        INITIAL_SUPPLY - endowment_total(endowed@)
                    } else {
                        0
                    },
                ) by {
                lemma_endowment_of_bounded(endowed@, x);
            }
        }
        Ok(state)
    }

    /// Creates a subnet owned by `owner` under Qubitum's policy, burning `creation_burn`.
    pub fn create_subnet(&mut self, owner: AccountId, domain: SubnetDomain, creation_burn: Balance) -> (r: Result<
        SubnetId,
        ProtocolError,
    >)
        requires
            old(self).wf(),
        ensures
            final(self).wf(),
            final(self).supply() == old(self).supply(),
            Self::create_subnet_post(*old(self), *final(self), owner, domain, creation_burn, r),
    {
        let policy = SubnetPolicy::qubitum();
        match policy.validate_creation_burn(creation_burn) {
            Err(e) => {
                return Err(e);
            },
            Ok(_) => {},
        }
        match self.burn(owner, creation_burn) {
            Err(e) => {
                return Err(e);
            },
            Ok(_) => {},
        }
        let id = self.next_subnet_id;
        let next = match self.next_subnet_id.checked_add(1) {
            Some(v) => v,
            None => {
                return Err(ProtocolError::ArithmeticOverflow);
            },
        };
        let ghost mid = *self;
        self.next_subnet_id = next;
        let inserted = self.subnets.insert(
            id,
            SubnetConfig { id, owner, domain, policy, active: true },
        ).is_none();
        assert forall|x: AccountId| #[trigger] self.spec_ledger(x) == mid.spec_ledger(x) by {}
        if inserted {
            Ok(id)
        } else {
            Err(ProtocolError::DuplicateSubnet)
        }
    }

    /// Registers a pending miner on a subnet, burning the subnet's registration fee.
    pub fn register_miner(
        &mut self,
        operator: AccountId,
        subnet_id: SubnetId,
        model_commitment: Commitment,
        proof_system: ProofSystem,
    ) -> (r: Result<MinerId, ProtocolError>)
        requires
            old(self).wf(),
        ensures
            final(self).wf(),
            final(self).supply() == old(self).supply(),
            Self::register_miner_post(
                *old(self),
                *final(self),
                operator,
                subnet_id,
                model_commitment,
                proof_system,
                r,
            ),
    {
        let policy = match self.subnets.get(&subnet_id) {
            Some(config) => config.policy,
            None => {
                return Err(ProtocolError::UnknownSubnet);
            },
        };
        if policy.proof_system != proof_system {
            return Err(ProtocolError::ProofSystemMismatch);
        }
        if commitment_is_zero(&model_commitment) {
            return Err(ProtocolError::MissingCommitment);
        }
        match self.burn(operator, policy.miner_bond.registration_burn) {
            Err(e) => {
                return Err(e);
            },
            Ok(_) => {},
        }
        let id = self.next_miner_id;
        let next = match self.next_miner_id.checked_add(1) {
            Some(v) => v,
            None => {
                return Err(ProtocolError::ArithmeticOverflow);
            },
        };
        let ghost mid = *self;
        self.next_miner_id = next;
        self.miners.insert(
            id,
            MinerRegistration {
                id,
                operator,
                subnet_id,
                model_commitment,
                proof_system,
                bond: 0,
                status: RegistryStatus::Pending,
                shielded_identity_commitment: None,
                endpoint_commitment: None,
            },
        );
        assert forall|x: AccountId| #[trigger] self.spec_ledger(x) == mid.spec_ledger(x) by {}
        Ok(id)
    }

    /// Locks `bond` from the miner's operator and marks the miner active.
    pub fn activate_miner(&mut self, miner_id: MinerId, bond: Balance) -> (r: Result<(), ProtocolError>)
        requires
            old(self).wf(),
        ensures
            final(self).wf(),
            final(self).supply() == old(self).supply(),
            Self::activate_miner_post(*old(self), *final(self), miner_id, bond, r),
    {
        let miner = match self.miners.get(&miner_id) {
            Some(m) => *m,
            None => {
                return Err(ProtocolError::UnknownMiner);
            },
        };
        let policy = match self.subnets.get(&miner.subnet_id) {
            Some(config) => config.policy.miner_bond,
            None => {
                return Err(ProtocolError::UnknownSubnet);
            },
        };
        match policy.validate_bond(bond) {
            Err(e) => {
                return Err(e);
            },
            Ok(_) => {},
        }
        match self.lock(miner.operator, bond) {
            Err(e) => {
                return Err(e);
            },
            Ok(_) => {},
        }
        let ghost mid = *self;
        let mut updated = miner;
        updated.bond = bond;
        updated.status = RegistryStatus::Active;
        self.miners.insert(miner_id, updated);
        assert forall|x: AccountId| #[trigger] self.spec_ledger(x) == mid.spec_ledger(x) by {}
        Ok(())
    }

    /// Starts the miner's exit cooldown at `current_block`.
    pub fn begin_miner_exit(&mut self, miner_id: MinerId, current_block: BlockNumber) -> (r: Result<
        (),
        ProtocolError,
    >)
        requires
            old(self).wf(),
        ensures
            final(self).wf(),
            final(self).supply() == old(self).supply(),
            Self::begin_miner_exit_post(*old(self), *final(self), miner_id, current_block, r),
    {
        let miner = match self.miners.get(&miner_id) {
            Some(m) => *m,
            None => {
                return Err(ProtocolError::UnknownMiner);
            },
        };
        let policy = match self.subnets.get(&miner.subnet_id) {
            Some(config) => config.policy.miner_bond,
            None => {
                return Err(ProtocolError::UnknownSubnet);
            },
        };
        let exit_available_at = match policy.exit_available_at(current_block) {
            Ok(at) => at,
            Err(e) => {
                return Err(e);
            },
        };
        let ghost mid = *self;
        let mut updated = miner;
        updated.status = RegistryStatus::Exiting { exit_available_at };
        self.miners.insert(miner_id, updated);
        assert forall|x: AccountId| #[trigger] self.spec_ledger(x) == mid.spec_ledger(x) by {}
        Ok(())
    }

    /// Once the cooldown has passed, returns the miner's bond to its operator and disables it.
    pub fn complete_miner_exit(&mut self, miner_id: MinerId, current_block: BlockNumber) -> (r: Result<
        (),
        ProtocolError,
    >)
        requires
            old(self).wf(),
        ensures
            final(self).wf(),
            final(self).supply() == old(self).supply(),
            Self::complete_miner_exit_post(*old(self), *final(self), miner_id, current_block, r),
    {
        let miner = match self.miners.get(&miner_id) {
            Some(m) => *m,
            None => {
                return Err(ProtocolError::UnknownMiner);
            },
        };
        let exit_available_at = match miner.status {
            RegistryStatus::Exiting { exit_available_at } => exit_available_at,
            _ => {
                return Err(ProtocolError::NotActive);
            },
        };
        if current_block < exit_available_at {
            return Err(ProtocolError::CooldownNotComplete);
        }
        match self.unlock(miner.operator, miner.bond) {
            Err(e) => {
                return Err(e);
            },
            Ok(_) => {},
        }
        let ghost mid = *self;
        let mut updated = miner;
        updated.bond = 0;
        updated.status = RegistryStatus::Disabled;
        self.miners.insert(miner_id, updated);
        assert forall|x: AccountId| #[trigger] self.spec_ledger(x) == mid.spec_ledger(x) by {}
        Ok(())
    }

    /// Registers an active validator routing `subnet_id`, locking `stake` from its operator.
    pub fn register_validator(&mut self, operator: AccountId, subnet_id: SubnetId, stake: Balance) -> (r: Result<
        ValidatorId,
        ProtocolError,
    >)
        requires
            old(self).wf(),
        ensures
            final(self).wf(),
            final(self).supply() == old(self).supply(),
            Self::register_validator_post(*old(self), *final(self), operator, subnet_id, stake, r),
    {
        let policy = match self.subnets.get(&subnet_id) {
            Some(config) => config.policy,
            None => {
                return Err(ProtocolError::UnknownSubnet);
            },
        };
        match policy.validate_validator_stake(stake) {
            Err(e) => {
                return Err(e);
            },
            Ok(_) => {},
        }
        match self.lock(operator, stake) {
            Err(e) => {
                return Err(e);
            },
            Ok(_) => {},
        }
        let id = self.next_validator_id;
        let next = match self.next_validator_id.checked_add(1) {
            Some(v) => v,
            None => {
                return Err(ProtocolError::ArithmeticOverflow);
            },
        };
        let ghost mid = *self;
        self.next_validator_id = next;
        let mut routing_subnets: Vec<SubnetId> = Vec::new();
        routing_subnets.push(subnet_id);
        assert(routing_subnets@ =~= seq![subnet_id]);
        self.validators.insert(
            id,
            ValidatorRegistration {
                id,
                operator,
                staked: stake,
                routing_subnets,
                status: RegistryStatus::Active,
            },
        );
        assert forall|x: AccountId| #[trigger] self.spec_ledger(x) == mid.spec_ledger(x) by {}
        Ok(id)
    }

    /// Burns `slash_bps` of the miner's bond from its operator's locked balance; a miner left
    /// below the minimum bond is marked slashed.
    pub fn slash_miner(&mut self, miner_id: MinerId, slash_bps: u16) -> (r: Result<
        Balance,
        ProtocolError,
    >)
        requires
            old(self).wf(),
        ensures
            final(self).wf(),
            final(self).supply() == old(self).supply(),
            Self::slash_miner_post(*old(self), *final(self), miner_id, slash_bps, r),
    {
        let miner = match self.miners.get(&miner_id) {
            Some(m) => *m,
            None => {
                return Err(ProtocolError::UnknownMiner);
            },
        };
        let policy = match self.subnets.get(&miner.subnet_id) {
            Some(config) => config.policy.miner_bond,
            None => {
                return Err(ProtocolError::UnknownSubnet);
            },
        };
        let slash_amount = match policy.slash_amount(miner.bond, slash_bps) {
            Ok(v) => v,
            Err(e) => {
                return Err(e);
            },
        };
        let remaining_bond = match miner.bond.checked_sub(slash_amount) {
            Some(v) => v,
            None => {
                return Err(ProtocolError::ArithmeticOverflow);
            },
        };
        match self.burn_locked(miner.operator, slash_amount) {
            Err(e) => {
                return Err(e);
            },
            Ok(_) => {},
        }
        let ghost mid = *self;
        let mut updated = miner;
        updated.bond = remaining_bond;
        if remaining_bond < policy.min_bond {
            updated.status = RegistryStatus::Slashed;
        }
        self.miners.insert(miner_id, updated);
        assert forall|x: AccountId| #[trigger] self.spec_ledger(x) == mid.spec_ledger(x) by {}
        Ok(slash_amount)
    }

    /// What `process_proof` does, given the verifier's verdict on the submission, taking `a` to
    /// `b` with result `r`.
    pub open spec fn process_proof_post(
        a: ProtocolState,
        b: ProtocolState,
        payer: AccountId,
        submission: InferenceProofSubmission,
        payment: Balance,
        validator_fee_bps: u16,
        treasury_fee_bps: u16,
        verdict: Result<VerificationOutcome, ProtocolError>,
        r: Result<ProofProcessing, ProtocolError>,
    ) -> bool {
        if !a.spec_subnets().contains_key(submission.subnet_id) {
            r == Err::<ProofProcessing, ProtocolError>(ProtocolError::UnknownSubnet) && b == a
        } else {
            match verdict {
                Err(e) => r == Err::<ProofProcessing, ProtocolError>(e) && b == a,
                Ok(VerificationOutcome::Valid) => match r {
                    Ok(ProofProcessing::Accepted(record)) => Self::submit_valid_proof_post(
                        a,
                        b,
                        payer,
                        submission,
                        payment,
                        validator_fee_bps,
                        treasury_fee_bps,
                        Ok(record),
                    ),
                    Err(e) => Self::submit_valid_proof_post(
                        a,
                        b,
                        payer,
                        submission,
                        payment,
                        validator_fee_bps,
                        treasury_fee_bps,
                        Err(e),
                    ),
                    Ok(ProofProcessing::Rejected { .. }) => false,
                },
                Ok(VerificationOutcome::Invalid { slash_bps }) => match r {
                    Ok(ProofProcessing::Rejected { miner_slashed }) => Self::slash_miner_post(
                        a,
                        b,
                        submission.miner_id,
                        slash_bps,
                        Ok(miner_slashed),
                    ),
                    Err(e) => Self::slash_miner_post(a, b, submission.miner_id, slash_bps, Err(e)),
                    Ok(ProofProcessing::Accepted(_)) => false,
                },
                Ok(VerificationOutcome::Error) => r == Err::<ProofProcessing, ProtocolError>(
                    ProtocolError::VerifierError,
                ) && b == a,
            }
        }
    }

    /// Settles a verified submission: the payer pays the miner, the validator and the treasury,
    /// and the inference is recorded under its request id.
    pub fn submit_valid_proof(
        &mut self,
        payer: AccountId,
        submission: InferenceProofSubmission,
        payment: Balance,
        validator_fee_bps: u16,
        treasury_fee_bps: u16,
    ) -> (r: Result<InferenceRecord, ProtocolError>)
        requires
            old(self).wf(),
        ensures
            final(self).wf(),
            final(self).supply() == old(self).supply(),
            r is Ok ==> forall|x: AccountId| #[trigger] final(self).spec_ledger(x).free
                == old(self).spec_ledger(x).free + Self::settlement_credit(
                *old(self),
                payer,
                submission,
                payment,
                validator_fee_bps,
                treasury_fee_bps,
                x,
            ),
            Self::submit_valid_proof_post(
                *old(self),
                *final(self),
                payer,
                submission,
                payment,
                validator_fee_bps,
                treasury_fee_bps,
                r,
            ),
    {
        let policy = match self.subnets.get(&submission.subnet_id) {
            Some(config) => config.policy,
            None => {
                return Err(ProtocolError::UnknownSubnet);
            },
        };
        let submission = match submission.validate_shape(policy) {
            Ok(s) => s,
            Err(e) => {
                return Err(e);
            },
        };
        let miner_operator = match self.miners.get(&submission.miner_id) {
            Some(miner) => {
                if miner.subnet_id != submission.subnet_id || miner.status
                    != RegistryStatus::Active {
                    return Err(ProtocolError::NotActive);
                }
                miner.operator
            },
            None => {
                return Err(ProtocolError::UnknownMiner);
            },
        };
        let validator_operator = match self.validators.get(&submission.validator_id) {
            Some(validator) => {
                let validator_routes_subnet = routes_subnet(
                    &validator.routing_subnets,
                    submission.subnet_id,
                );
                if !validator_routes_subnet || validator.status != RegistryStatus::Active {
                    return Err(ProtocolError::NotActive);
                }
                validator.operator
            },
            None => {
                return Err(ProtocolError::UnknownValidator);
            },
        };
        let settlement = match settle_inference_payment(
            payment,
            validator_fee_bps,
            treasury_fee_bps,
        ) {
            Ok(s) => s,
            Err(e) => {
                return Err(e);
            },
        };
        match self.transfer(payer, miner_operator, settlement.miner_payment) {
            Err(e) => {
                return Err(e);
            },
            Ok(_) => {},
        }
        match self.transfer(payer, validator_operator, settlement.validator_fee) {
            Err(e) => {
                return Err(e);
            },
            Ok(_) => {},
        }
        let treasury = self.treasury_account;
        match self.transfer(payer, treasury, settlement.treasury_fee) {
            Err(e) => {
                return Err(e);
            },
            Ok(_) => {},
        }
        let record = InferenceRecord::from_valid_submission(submission);
        let ghost mid = *self;
        self.records.insert(record.request_id, record);
        assert forall|x: AccountId| #[trigger] self.spec_ledger(x) == mid.spec_ledger(x) by {}
        Ok(record)
    }

    /// Runs the verifier on a submission: a valid proof is settled, an invalid one slashes the
    /// miner, and a verifier error is reported without any change.
    pub fn process_proof<V: ProofVerifier>(
        &mut self,
        payer: AccountId,
        submission: InferenceProofSubmission,
        payment: Balance,
        validator_fee_bps: u16,
        treasury_fee_bps: u16,
        verifier: &V,
    ) -> (r: Result<ProofProcessing, ProtocolError>)
        requires
            old(self).wf(),
        ensures
            final(self).wf(),
            final(self).supply() == old(self).supply(),
            Self::process_proof_post(
                *old(self),
                *final(self),
                payer,
                submission,
                payment,
                validator_fee_bps,
                treasury_fee_bps,
                verifier.spec_verify(
                    submission,
                    old(self).spec_subnets()[submission.subnet_id].policy,
                ),
                r,
            ),
    {
        let policy = match self.subnets.get(&submission.subnet_id) {
            Some(config) => config.policy,
            None => {
                return Err(ProtocolError::UnknownSubnet);
            },
        };
        match verifier.verify(&submission, policy) {
            Err(e) => Err(e),
            Ok(VerificationOutcome::Valid) => {
                match self.submit_valid_proof(
                    payer,
                    submission,
                    payment,
                    validator_fee_bps,
                    treasury_fee_bps,
                ) {
                    Ok(record) => Ok(ProofProcessing::Accepted(record)),
                    Err(e) => Err(e),
                }
            },
            Ok(VerificationOutcome::Invalid { slash_bps }) => {
                match self.slash_miner(submission.miner_id, slash_bps) {
                    Ok(miner_slashed) => Ok(ProofProcessing::Rejected { miner_slashed }),
                    Err(e) => Err(e),
                }
            },
            Ok(VerificationOutcome::Error) => Err(ProtocolError::VerifierError),
        }
    }

    /// The ledger of an account; an empty ledger when the account never held anything.
    pub fn ledger(&self, account: &AccountId) -> (r: AccountLedger)
        ensures
            r == self.spec_ledger(*account),
    {
        match self.find_account(account) {
            Some(i) => {
                proof {
                    lemma_lookup_last(self.accounts@, i as int);
                }
                self.accounts[i].1
            },
            None => {
                proof {
                    lemma_lookup_absent(self.accounts@, *account);
                }
                AccountLedger { free: 0, locked: 0 }
            },
        }
    }

    /// The treasury account, as the contracts speak of it.
    pub fn treasury(&self) -> (r: AccountId)
        ensures
            r == self.spec_treasury(),
    {
        self.treasury_account
    }

    /// The registered subnets, as the contracts speak of them.
    pub fn registered_subnets(&self) -> (r: &BTreeMap<SubnetId, SubnetConfig>)
        ensures
            r@ == self.spec_subnets(),
    {
        &self.subnets
    }

    /// The registered miners, as the contracts speak of them.
    pub fn registered_miners(&self) -> (r: &BTreeMap<MinerId, MinerRegistration>)
        ensures
            r@ == self.spec_miners(),
    {
        &self.miners
    }

    /// The registered validators, as the contracts speak of them.
    pub fn registered_validators(&self) -> (r: &BTreeMap<ValidatorId, ValidatorRegistration>)
        ensures
            r@ == self.spec_validators(),
    {
        &self.validators
    }

    /// The recorded inferences, as the contracts speak of them.
    pub fn recorded_inferences(&self) -> (r: &BTreeMap<RequestId, InferenceRecord>)
        ensures
            r@ == self.spec_records(),
    {
        &self.records
    }

    /// The QBT burned so far, as the contracts speak of it.
    pub fn burned(&self) -> (r: Balance)
        ensures
            r == self.spec_total_burned(),
    {
        self.total_burned
    }
}

impl ProtocolState {
    /// Subnet identifiers are never reused: a created subnet's identifier was free before and
    /// is registered after.
    pub proof fn lemma_created_subnet_is_fresh(
        a: ProtocolState,
        b: ProtocolState,
        owner: AccountId,
        domain: SubnetDomain,
        creation_burn: Balance,
        r: Result<SubnetId, ProtocolError>,
    )
        requires
            a.wf(),
            Self::create_subnet_post(a, b, owner, domain, creation_burn, r),
            r is Ok,
        ensures
            !a.spec_subnets().contains_key(r->Ok_0),
            b.spec_subnets().contains_key(r->Ok_0),
    {
        if a.spec_subnets().contains_key(r->Ok_0) {
            assert(a.subnets@.contains_key(r->Ok_0));
        }
    }

    /// Miner identifiers are never reused: a registered miner's identifier was free before and
    /// is registered after.
    pub proof fn lemma_registered_miner_is_fresh(
        a: ProtocolState,
        b: ProtocolState,
        operator: AccountId,
        subnet_id: SubnetId,
        model_commitment: Commitment,
        proof_system: ProofSystem,
        r: Result<MinerId, ProtocolError>,
    )
        requires
            a.wf(),
            Self::register_miner_post(a, b, operator, subnet_id, model_commitment, proof_system, r),
            r is Ok,
        ensures
            !a.spec_miners().contains_key(r->Ok_0),
            b.spec_miners().contains_key(r->Ok_0),
    {
        if a.spec_miners().contains_key(r->Ok_0) {
            assert(a.miners@.contains_key(r->Ok_0));
        }
    }

    /// Validator identifiers are never reused: a registered validator's identifier was free
    /// before and is registered after.
    pub proof fn lemma_registered_validator_is_fresh(
        a: ProtocolState,
        b: ProtocolState,
        operator: AccountId,
        subnet_id: SubnetId,
        stake: Balance,
        r: Result<ValidatorId, ProtocolError>,
    )
        requires
            a.wf(),
            Self::register_validator_post(a, b, operator, subnet_id, stake, r),
            r is Ok,
        ensures
            !a.spec_validators().contains_key(r->Ok_0),
            b.spec_validators().contains_key(r->Ok_0),
    {
        if a.spec_validators().contains_key(r->Ok_0) {
            assert(a.validators@.contains_key(r->Ok_0));
        }
    }

    /// A miner that begins its exit at `begin_block` cannot complete it before the subnet's exit
    /// cooldown has passed, and, with its bond still locked, completes it from then on.
    pub proof fn lemma_exit_waits_for_cooldown(
        a: ProtocolState,
        b: ProtocolState,
        c: ProtocolState,
        miner_id: MinerId,
        begin_block: BlockNumber,
        complete_block: BlockNumber,
        begun: Result<(), ProtocolError>,
        completed: Result<(), ProtocolError>,
    )
        requires
            Self::begin_miner_exit_post(a, b, miner_id, begin_block, begun),
            begun is Ok,
            Self::complete_miner_exit_post(b, c, miner_id, complete_block, completed),
        ensures
            ({
                let miner = a.spec_miners()[miner_id];
                let cooldown = a.spec_subnets()[miner.subnet_id].policy.miner_bond.exit_cooldown_blocks;
                &&& complete_block < begin_block + cooldown ==> completed == Err::<(), ProtocolError>(
                    ProtocolError::CooldownNotComplete,
                ) && c == b
                &&& complete_block >= begin_block + cooldown && b.spec_ledger(miner.operator).locked
                    >= miner.bond ==> completed is Ok
            }),
    {
        let miner = a.spec_miners()[miner_id];
        assert(b.spec_miners().contains_key(miner_id));
        assert(b.spec_miners()[miner_id].operator == miner.operator);
    }
}

impl ProtocolState {
    /// A valid proof is settled only for a registered subnet whose policy its shape meets
    /// (commitments set, the policy's proof system, proof size and latency within bounds), a
    /// miner registered on that subnet and active, and an active validator that routes the
    /// subnet, at fee rates that take at most 100% of the payment; the inference is then
    /// recorded under its request id.
    pub proof fn lemma_settled_proof_requirements(
        a: ProtocolState,
        b: ProtocolState,
        payer: AccountId,
        submission: InferenceProofSubmission,
        payment: Balance,
        validator_fee_bps: u16,
        treasury_fee_bps: u16,
        r: Result<InferenceRecord, ProtocolError>,
    )
        requires
            Self::submit_valid_proof_post(
                a,
                b,
                payer,
                submission,
                payment,
                validator_fee_bps,
                treasury_fee_bps,
                r,
            ),
            r is Ok,
        ensures
            a.spec_subnets().contains_key(submission.subnet_id),
            ({
                let policy = a.spec_subnets()[submission.subnet_id].policy;
                &&& !is_zero_commitment(submission.input_commitment)
                &&& !is_zero_commitment(submission.output_commitment)
                &&& !is_zero_commitment(submission.model_commitment)
                &&& submission.proof_system == policy.proof_system
                &&& policy.min_proof_size_bytes <= submission.proof_size_bytes
                &&& submission.proof_size_bytes <= policy.max_proof_size_bytes
                &&& submission.verification_latency_ms <= policy.max_verification_latency_ms
            }),
            a.spec_miners().contains_key(submission.miner_id),
            a.spec_miners()[submission.miner_id].subnet_id == submission.subnet_id,
            a.spec_miners()[submission.miner_id].status == RegistryStatus::Active,
            a.spec_validators().contains_key(submission.validator_id),
            a.spec_validators()[submission.validator_id].routing_subnets@.contains(submission.subnet_id),
            a.spec_validators()[submission.validator_id].status == RegistryStatus::Active,
            validator_fee_bps + treasury_fee_bps <= 10000,
            r == Ok::<InferenceRecord, ProtocolError>(InferenceRecord::spec_from_submission(submission)),
            b.spec_records().contains_key(submission.request_id),
            b.spec_records()[submission.request_id].miner_id == submission.miner_id,
            b.spec_records()[submission.request_id].output_commitment == submission.output_commitment,
            b.spec_total_burned() == a.spec_total_burned(),
            b.spec_miners() == a.spec_miners(),
    {
        lemma_shape_check_accepts_exactly(submission, a.spec_subnets()[submission.subnet_id].policy);
    }

    /// A processed proof is accepted only on a valid verdict and rejected only on an invalid
    /// one; a rejection slashes the miner's bond at a rate within its subnet's bounds, by that
    /// rate of the bond rounded down, and burns exactly that; a verifier error changes nothing.
    pub proof fn lemma_processed_proof_outcome(
        a: ProtocolState,
        b: ProtocolState,
        payer: AccountId,
        submission: InferenceProofSubmission,
        payment: Balance,
        validator_fee_bps: u16,
        treasury_fee_bps: u16,
        verdict: Result<VerificationOutcome, ProtocolError>,
        r: Result<ProofProcessing, ProtocolError>,
    )
        requires
            Self::process_proof_post(
                a,
                b,
                payer,
                submission,
                payment,
                validator_fee_bps,
                treasury_fee_bps,
                verdict,
                r,
            ),
        ensures
            r matches Ok(ProofProcessing::Accepted(record)) ==> {
                &&& verdict == Ok::<VerificationOutcome, ProtocolError>(VerificationOutcome::Valid)
                &&& record == InferenceRecord::spec_from_submission(submission)
                &&& a.spec_miners().contains_key(submission.miner_id)
                &&& a.spec_miners()[submission.miner_id].subnet_id == submission.subnet_id
                &&& a.spec_miners()[submission.miner_id].status == RegistryStatus::Active
                &&& a.spec_validators().contains_key(submission.validator_id)
                &&& a.spec_validators()[submission.validator_id].status == RegistryStatus::Active
            },
            r matches Ok(ProofProcessing::Rejected { miner_slashed }) ==> {
                &&& verdict matches Ok(VerificationOutcome::Invalid { slash_bps })
                &&& a.spec_miners().contains_key(submission.miner_id)
                &&& a.spec_subnets().contains_key(a.spec_miners()[submission.miner_id].subnet_id)
                &&& ({
                    let miner = a.spec_miners()[submission.miner_id];
                    let bounds = a.spec_subnets()[miner.subnet_id].policy.miner_bond;
                    let slash_bps = verdict->Ok_0->slash_bps;
                    &&& bounds.min_invalid_proof_slash_bps <= slash_bps
                    &&& slash_bps <= bounds.max_invalid_proof_slash_bps
                    &&& miner_slashed as int == miner.bond as int * slash_bps as int / 10000
                    &&& b.spec_total_burned() == a.spec_total_burned() + miner_slashed
                    &&& b.spec_miners()[submission.miner_id].bond == miner.bond - miner_slashed
                })
                &&& b.spec_records() == a.spec_records()
            },
            verdict == Ok::<VerificationOutcome, ProtocolError>(VerificationOutcome::Error) ==> r
                == Err::<ProofProcessing, ProtocolError>(ProtocolError::VerifierError) || r
                == Err::<ProofProcessing, ProtocolError>(ProtocolError::UnknownSubnet),
            r is Err ==> b.spec_records() == a.spec_records(),
    {
        if let Ok(ProofProcessing::Accepted(record)) = r {
            Self::lemma_settled_proof_requirements(
                a,
                b,
                payer,
                submission,
                payment,
                validator_fee_bps,
                treasury_fee_bps,
                Ok(record),
            );
        }
        if let Ok(ProofProcessing::Rejected { miner_slashed }) = r {
            let miner = a.spec_miners()[submission.miner_id];
            let bounds = a.spec_subnets()[miner.subnet_id].policy.miner_bond;
            let slash_bps = verdict->Ok_0->slash_bps;
            lemma_slash_amount_follows_rate(bounds, miner.bond, slash_bps);
        }
    }

    /// The QBT slashed from a miner is its bond's share at a rate within its subnet's bounds,
    /// rounded down: it leaves the operator's locked balance and the bond, is burned, and a
    /// miner left below the minimum bond is marked slashed.
    pub proof fn lemma_slash_burns_rate_of_bond(
        a: ProtocolState,
        b: ProtocolState,
        miner_id: MinerId,
        slash_bps: u16,
        r: Result<Balance, ProtocolError>,
    )
        requires
            Self::slash_miner_post(a, b, miner_id, slash_bps, r),
            r is Ok,
        ensures
            a.spec_miners().contains_key(miner_id),
            a.spec_subnets().contains_key(a.spec_miners()[miner_id].subnet_id),
            ({
                let miner = a.spec_miners()[miner_id];
                let bounds = a.spec_subnets()[miner.subnet_id].policy.miner_bond;
                let amount = r->Ok_0;
                &&& bounds.min_invalid_proof_slash_bps <= slash_bps
                &&& slash_bps <= bounds.max_invalid_proof_slash_bps
                &&& amount as int == miner.bond as int * slash_bps as int / 10000
                &&& b.spec_total_burned() == a.spec_total_burned() + amount
                &&& b.spec_ledger(miner.operator).locked == a.spec_ledger(miner.operator).locked - amount
                &&& b.spec_miners()[miner_id].bond == miner.bond - amount
                &&& (miner.bond - amount < bounds.min_bond ==> b.spec_miners()[miner_id].status
                    == RegistryStatus::Slashed)
                &&& (miner.bond - amount >= bounds.min_bond ==> b.spec_miners()[miner_id].status
                    == miner.status)
            }),
    {
        let miner = a.spec_miners()[miner_id];
        let bounds = a.spec_subnets()[miner.subnet_id].policy.miner_bond;
        lemma_slash_amount_follows_rate(bounds, miner.bond, slash_bps);
    }

    /// Registration and lifecycle succeed only on their preconditions: a subnet is created only
    /// for at least the policy's burn, which is burned; a miner registers only on a registered
    /// subnet with its proof system and a model commitment, burning the registration fee, and
    /// starts pending with no bond; it activates only with a bond within its subnet's bounds,
    /// which is locked; its exit completes at the cooldown after it starts, and only then
    /// releases the bond; a validator registers only with at least the minimum stake.
    pub proof fn lemma_lifecycle_requirements(
        a: ProtocolState,
        b: ProtocolState,
        account: AccountId,
        subnet_id: SubnetId,
        domain: SubnetDomain,
        amount: Balance,
        model_commitment: Commitment,
        proof_system: ProofSystem,
        miner_id: MinerId,
        block: BlockNumber,
    )
        requires
            a.wf(),
        ensures
            Self::create_subnet_post(a, b, account, domain, amount, Ok(subnet_id)) ==> {
                &&& amount >= MINER_REGISTRATION_BURN
                &&& b.spec_total_burned() == a.spec_total_burned() + amount
                &&& b.spec_ledger(account).free == a.spec_ledger(account).free - amount
                &&& b.spec_subnets()[subnet_id].owner == account
                &&& b.spec_subnets()[subnet_id].active
            },
            Self::register_miner_post(a, b, account, subnet_id, model_commitment, proof_system, Ok(miner_id))
                ==> {
                &&& a.spec_subnets().contains_key(subnet_id)
                &&& a.spec_subnets()[subnet_id].policy.proof_system == proof_system
                &&& !is_zero_commitment(model_commitment)
                &&& b.spec_total_burned() == a.spec_total_burned()
                    + a.spec_subnets()[subnet_id].policy.miner_bond.registration_burn
                &&& b.spec_miners()[miner_id].status == RegistryStatus::Pending
                &&& b.spec_miners()[miner_id].bond == 0
                &&& b.spec_miners()[miner_id].operator == account
                &&& b.spec_miners()[miner_id].subnet_id == subnet_id
            },
            Self::activate_miner_post(a, b, miner_id, amount, Ok(())) ==> {
                &&& a.spec_miners().contains_key(miner_id)
                &&& a.spec_subnets().contains_key(a.spec_miners()[miner_id].subnet_id)
                &&& a.spec_subnets()[a.spec_miners()[miner_id].subnet_id].policy.miner_bond.min_bond
                    <= amount
                &&& amount <= a.spec_subnets()[a.spec_miners()[miner_id].subnet_id].policy.miner_bond.max_bond
                &&& b.spec_miners()[miner_id].status == RegistryStatus::Active
                &&& b.spec_miners()[miner_id].bond == amount
                &&& b.spec_ledger(a.spec_miners()[miner_id].operator).locked == a.spec_ledger(
                    a.spec_miners()[miner_id].operator,
                ).locked + amount
            },
            Self::begin_miner_exit_post(a, b, miner_id, block, Ok(())) ==> {
                &&& a.spec_miners().contains_key(miner_id)
                &&& b.spec_miners()[miner_id].status == RegistryStatus::Exiting {
                    exit_available_at: (block + a.spec_subnets()[a.spec_miners()[
                        miner_id
                    ].subnet_id].policy.miner_bond.exit_cooldown_blocks) as u64,
                }
            },
            Self::complete_miner_exit_post(a, b, miner_id, block, Ok(())) ==> {
                &&& a.spec_miners().contains_key(miner_id)
                &&& a.spec_miners()[miner_id].status matches RegistryStatus::Exiting {
                    exit_available_at,
                } && exit_available_at <= block
                &&& b.spec_ledger(a.spec_miners()[miner_id].operator).free == a.spec_ledger(
                    a.spec_miners()[miner_id].operator,
                ).free + a.spec_miners()[miner_id].bond
                &&& b.spec_miners()[miner_id].status == RegistryStatus::Disabled
                &&& b.spec_miners()[miner_id].bond == 0
            },
            Self::register_validator_post(a, b, account, subnet_id, amount, Ok(miner_id)) ==> {
                &&& a.spec_subnets().contains_key(subnet_id)
                &&& amount >= a.spec_subnets()[subnet_id].policy.min_validator_stake
                &&& b.spec_validators()[miner_id].staked == amount
                &&& b.spec_validators()[miner_id].operator == account
                &&& b.spec_ledger(account).locked == a.spec_ledger(account).locked + amount
            },
    {
        if Self::begin_miner_exit_post(a, b, miner_id, block, Ok(())) {
            let miner = a.spec_miners()[miner_id];
            lemma_exit_follows_cooldown(a.spec_subnets()[miner.subnet_id].policy.miner_bond, block);
        }
        if a.spec_miners().contains_key(miner_id) {
            a.lemma_ledger_within_supply(a.spec_miners()[miner_id].operator);
        }
        a.lemma_ledger_within_supply(account);
    }
}

} // verus!
