//! Block-author lookup for the shield's key rotation: the author of a slot is the authority at
//! the slot's position modulo the number of authorities, unless an author was set explicitly.
use vstd::prelude::*;

verus! {

/// The raw public key of a block-authoring authority.
pub type AuthorityId = [u8; 32];

/// The author that round-robin authoring assigns to `slot`.
pub open spec fn spec_slot_author(slot: u64, authorities: Seq<AuthorityId>) -> AuthorityId
    recommends
        authorities.len() > 0,
{
    authorities[(slot % (authorities.len() as u64)) as int]
}

/// The authority at position `slot` modulo the number of authorities.
fn slot_author(slot: u64, authorities: &Vec<AuthorityId>) -> (r: AuthorityId)
    requires
        authorities@.len() > 0,
    ensures
        r == spec_slot_author(slot, authorities@),
{
    let count: u64 = authorities.len() as u64;
    let index: u64 = slot % count;
    authorities[index as usize]
}

/// Author lookup with explicit overrides, falling back to round-robin authoring.
#[derive(Clone, Copy, Debug, PartialEq, Eq)]
pub struct MockFindAuthors {
    /// The current author, when set explicitly.
    pub current: Option<AuthorityId>,
    /// The author two slots ahead, when set explicitly (possibly as none).
    pub next_next: Option<Option<AuthorityId>>,
}

impl MockFindAuthors {
    /// The author of the current slot: the explicit one if set, else the round-robin author of
    /// `slot` when the slot is known.
    pub fn find_current_author(&self, slot: Option<u64>, authorities: &Vec<AuthorityId>) -> (r:
        Option<AuthorityId>)
        requires
            self.current is None && slot is Some ==> authorities@.len() > 0,
        ensures
            r == match self.current {
                Some(a) => Some(a),
                None => match slot {
                    Some(s) => Some(spec_slot_author(s, authorities@)),
                    None => None,
                },
            },
    {
        match self.current {
            Some(a) => Some(a),
            None => match slot {
                Some(s) => Some(slot_author(s, authorities)),
                None => None,
            },
        }
    }

    /// The author two slots after the current one: the explicit one if set, else the
    /// round-robin author of `slot + 2` when the slot is known and the sum does not overflow.
    pub fn find_next_next_author(&self, slot: Option<u64>, authorities: &Vec<AuthorityId>) -> (r:
        Option<AuthorityId>)
        requires
            self.next_next is None && slot is Some && slot->0 + 2 <= u64::MAX ==> authorities@.len()
                > 0,
        ensures
            r == match self.next_next {
                Some(a) => a,
                None => match slot {
                    Some(s) => if s + 2 <= u64::MAX {
                        Some(spec_slot_author((s + 2) as u64, authorities@))
                    } else {
                        None
                    },
                    None => None,
                },
            },
    {
        match self.next_next {
            Some(a) => a,
            None => match slot {
                Some(s) => match s.checked_add(2) {
                    Some(ahead) => Some(slot_author(ahead, authorities)),
                    None => None,
                },
                None => None,
            },
        }
    }
}

/// Round-robin authoring: a slot's author is one of the authorities, the first slots go to the
/// authorities in order, and the assignment repeats every as many slots as there are
/// authorities.
pub proof fn lemma_round_robin_authoring(slot: u64, authorities: Seq<AuthorityId>)
    requires
        authorities.len() > 0,
        authorities.len() <= u64::MAX,
    ensures
        authorities.contains(spec_slot_author(slot, authorities)),
        slot < authorities.len() ==> spec_slot_author(slot, authorities) == authorities[slot as int],
        slot + authorities.len() <= u64::MAX ==> spec_slot_author(
            (slot + authorities.len()) as u64,
            authorities,
        ) == spec_slot_author(slot, authorities),
{
    let n = authorities.len() as u64;
    let i = (slot % n) as int;
    assert(0 <= i < authorities.len());
    assert(authorities[i] == spec_slot_author(slot, authorities));
    if slot < authorities.len() {
        assert(slot % n == slot) by (nonlinear_arith)
            requires
                slot < n,
        ;
    }
    if slot + authorities.len() <= u64::MAX {
        let later = (slot + authorities.len()) as u64;
        assert(later % n == slot % n) by (nonlinear_arith)
            requires
                later == slot + n,
                n > 0,
        ;
    }
}

} // verus!
