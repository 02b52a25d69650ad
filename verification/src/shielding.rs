//! Call-tree scans behind the runtime's shielding rules: Qubitum calls must arrive inside a
//! shielded envelope, `submit_encrypted` transactions must be short-lived, and the shield queue
//! refuses recursive shield calls. Every scan fails closed once nesting reaches its depth bound.
use vstd::prelude::*;

verus! {

/// How deep the shielding scans descend into nested calls before failing closed.
pub const MAX_CALL_SCAN_DEPTH: u8 = 8;

/// Longest era period, in blocks, accepted for a transaction carrying `submit_encrypted`.
pub const MAX_SHIELD_ERA_PERIOD: u64 = 8;

/// The shape of a runtime call as the shielding scans see it: which pallet call it is and
/// which calls it wraps.
#[derive(Debug, PartialEq, Eq)]
pub enum RuntimeCallShape {
    /// `MevShield::submit_encrypted`.
    ShieldSubmitEncrypted,
    /// `MevShield::store_encrypted`.
    ShieldStoreEncrypted,
    /// Any other `MevShield` call.
    ShieldOther,
    /// Any Qubitum pallet call.
    Qubitum,
    /// `Utility::batch`, `batch_all` or `force_batch`.
    UtilityBatch(Vec<RuntimeCallShape>),
    /// `Utility::as_derivative`, `dispatch_as`, `with_weight` or `dispatch_as_fallible`.
    UtilityWrap(Box<RuntimeCallShape>),
    /// `Utility::if_else` with its main and fallback calls.
    UtilityIfElse(Box<RuntimeCallShape>, Box<RuntimeCallShape>),
    /// Any other `Utility` call.
    UtilityOther,
    /// A privileged wrapper of one call: `Proxy::proxy` / `proxy_announced`, `Sudo::sudo` /
    /// `sudo_unchecked_weight` / `sudo_as`, `Multisig::as_multi_threshold_1` / `as_multi`, or
    /// `Scheduler::schedule` / `schedule_named` / `schedule_after` / `schedule_named_after`.
    PrivilegedWrap(Box<RuntimeCallShape>),
    /// `Preimage::note_preimage` with what its bytes decode to.
    NotePreimage(PreimageDecoding),
    /// Any other call.
    Other,
}

/// What the bytes of a noted preimage decode to, as the scans ask for it.
#[derive(Debug, PartialEq, Eq)]
pub struct PreimageDecoding {
    /// The call the bytes decode to when the decode must consume every byte.
    pub exact: Option<Box<RuntimeCallShape>>,
    /// The call the bytes decode to, consuming every byte, within the nesting budget left to
    /// the era scan at the preimage's position.
    pub exact_within_budget: Option<Box<RuntimeCallShape>>,
    /// The call a prefix of the bytes decodes to within that budget, trailing bytes ignored.
    pub prefix_within_budget: Option<Box<RuntimeCallShape>>,
    /// Whether the bytes, or a prefix of them, decode as some call at a generous nesting limit.
    pub decodable: bool,
}

/// Why the privacy extension refuses a transaction.
#[derive(Clone, Copy, Debug, PartialEq, Eq, Structural)]
pub enum ShieldingViolation {
    QubitumCallMustBeShielded,
    ShieldStoreEncryptedDisabled,
}

/// Why the mortality extension refuses a transaction.
#[derive(Clone, Copy, Debug, PartialEq, Eq, Structural)]
pub enum MortalityViolation {
    Stale,
}

/// A transaction's era: immortal, or mortal with a period and phase in blocks.
#[derive(Clone, Copy, Debug, PartialEq, Eq, Structural)]
pub enum TransactionEra {
    Immortal,
    Mortal(u64, u64),
}

/// Whether `call` at nesting `depth` carries a `submit_encrypted` call (or nests too deep to
/// tell, which counts as carrying one).
pub open spec fn spec_contains_shield_submit(call: RuntimeCallShape, depth: int) -> bool
    decreases 8 - depth, 0int,
{
    if depth >= 8 {
        true
    } else {
        match call {
            RuntimeCallShape::ShieldSubmitEncrypted => true,
            RuntimeCallShape::UtilityBatch(calls) => spec_any_contains_shield_submit(
                calls@,
                0,
                depth + 1,
            ),
            RuntimeCallShape::UtilityWrap(inner) => spec_contains_shield_submit(*inner, depth + 1),
            RuntimeCallShape::UtilityIfElse(main, fallback) => spec_contains_shield_submit(
                *main,
                depth + 1,
            ) || spec_contains_shield_submit(*fallback, depth + 1),
            RuntimeCallShape::PrivilegedWrap(inner) => spec_contains_shield_submit(
                *inner,
                depth + 1,
            ),
            RuntimeCallShape::NotePreimage(preimage) => spec_preimage_contains_shield_submit(
                preimage,
                depth + 1,
            ),
            _ => false,
        }
    }
}

/// Whether some call of `calls` from index `i` on, at nesting `depth`, carries
/// `submit_encrypted`.
pub open spec fn spec_any_contains_shield_submit(
    calls: Seq<RuntimeCallShape>,
    i: int,
    depth: int,
) -> bool
    decreases 8 - depth, calls.len() - i + 1,
{
    if i < 0 || i >= calls.len() {
        false
    } else {
        spec_contains_shield_submit(calls[i], depth) || spec_any_contains_shield_submit(
            calls,
            i + 1,
            depth,
        )
    }
}

/// Whether a noted preimage at nesting `depth` carries `submit_encrypted`: its decoded call is
/// scanned, and bytes that decode only beyond the budget count as carrying one.
pub open spec fn spec_preimage_contains_shield_submit(preimage: PreimageDecoding, depth: int) -> bool
    decreases 8 - depth, 2int,
{
    if depth >= 8 {
        true
    } else {
        match preimage.exact_within_budget {
            Some(call) => spec_contains_shield_submit(*call, depth),
            None => match preimage.prefix_within_budget {
                Some(call) => spec_contains_shield_submit(*call, depth),
                None => preimage.decodable,
            },
        }
    }
}

/// Whether `call` carries `submit_encrypted` anywhere a dispatch could reach it.
pub fn shield_submit_encrypted_at_depth(call: &RuntimeCallShape, depth: u8) -> (r: bool)
    ensures
        r == spec_contains_shield_submit(*call, depth as int),
    decreases 8 - depth, 1int,
{
    if depth >= MAX_CALL_SCAN_DEPTH {
        return true;
    }
    match call {
        RuntimeCallShape::ShieldSubmitEncrypted => true,
        RuntimeCallShape::UtilityBatch(calls) => {
            let mut i: usize = calls.len();
            let mut found = false;
            while i > 0
                invariant
                    0 <= i <= calls@.len(),
                    depth < 8,
                    found == spec_any_contains_shield_submit(calls@, i as int, depth + 1),
                decreases i,
            {
                i = i - 1;
                if shield_submit_encrypted_at_depth(&calls[i], depth + 1) {
                    found = true;
                }
            }
            found
        },
        RuntimeCallShape::UtilityWrap(inner) => shield_submit_encrypted_at_depth(inner, depth + 1),
        RuntimeCallShape::UtilityIfElse(main, fallback) => shield_submit_encrypted_at_depth(
            main,
            depth + 1,
        ) || shield_submit_encrypted_at_depth(fallback, depth + 1),
        RuntimeCallShape::PrivilegedWrap(inner) => shield_submit_encrypted_at_depth(
            inner,
            depth + 1,
        ),
        RuntimeCallShape::NotePreimage(preimage) => encoded_runtime_call_contains_shield_submit(
            preimage,
            depth + 1,
        ),
        _ => false,
    }
}

/// Whether the call a noted preimage decodes to carries `submit_encrypted`.
pub fn encoded_runtime_call_contains_shield_submit(preimage: &PreimageDecoding, depth: u8) -> (r:
    bool)
    ensures
        r == spec_preimage_contains_shield_submit(*preimage, depth as int),
    decreases 8 - depth, 2int,
{
    if depth >= MAX_CALL_SCAN_DEPTH {
        return true;
    }
    match &preimage.exact_within_budget {
        Some(call) => shield_submit_encrypted_at_depth(call, depth),
        None => match &preimage.prefix_within_budget {
            Some(call) => shield_submit_encrypted_at_depth(call, depth),
            None => preimage.decodable,
        },
    }
}

/// Mortality rule for shielded submissions: when `submit_encrypted` is present, the era must
/// be mortal with a period no longer than `MAX_SHIELD_ERA_PERIOD` blocks.
pub open spec fn spec_shield_era_check(era: TransactionEra, carries_shield_submit: bool) -> Result<
    (),
    MortalityViolation,
> {
    if carries_shield_submit && match era {
        TransactionEra::Immortal => true,
        TransactionEra::Mortal(period, _) => period > MAX_SHIELD_ERA_PERIOD,
    } {
        Err(MortalityViolation::Stale)
    } else {
        Ok(())
    }
}

/// Types whose values may carry a `submit_encrypted` call.
pub trait ContainsShieldSubmitEncrypted {
    /// Whether the value carries a `submit_encrypted` call.
    spec fn spec_contains_shield_submit_encrypted(&self) -> bool;

    /// Whether the value carries a `submit_encrypted` call.
    fn contains_shield_submit_encrypted(&self) -> (r: bool)
        ensures
            r == self.spec_contains_shield_submit_encrypted(),
    ;
}

impl ContainsShieldSubmitEncrypted for RuntimeCallShape {
    open spec fn spec_contains_shield_submit_encrypted(&self) -> bool {
        spec_contains_shield_submit(*self, 0)
    }

    fn contains_shield_submit_encrypted(&self) -> (r: bool) {
        shield_submit_encrypted_at_depth(self, 0)
    }
}

/// Refuses, as stale, a transaction that carries `submit_encrypted` under an immortal era or a
/// mortal era longer than `MAX_SHIELD_ERA_PERIOD` blocks.
pub fn ensure_shield_submit_mortal_era<C: ContainsShieldSubmitEncrypted>(era: TransactionEra, call: &C) -> (r: Result<
    (),
    MortalityViolation,
>)
    ensures
        r == spec_shield_era_check(era, call.spec_contains_shield_submit_encrypted()),
{
    if call.contains_shield_submit_encrypted() {
        let era_too_long = match era {
            TransactionEra::Immortal => true,
            TransactionEra::Mortal(period, _) => period > MAX_SHIELD_ERA_PERIOD,
        };
        if era_too_long {
            return Err(MortalityViolation::Stale);
        }
    }
    Ok(())
}

/// The mortality check of a transaction: its era, checked against the calls it carries.
#[derive(Clone, Copy, Debug, PartialEq, Eq, Structural)]
pub struct CheckMortality(pub TransactionEra);

impl CheckMortality {
    /// The check for a transaction signed with `era`.
    pub fn from(era: TransactionEra) -> (r: Self)
        ensures
            r.0 == era,
    {
        CheckMortality(era)
    }

    /// Validates the era of a transaction carrying `call`.
    pub fn validate(&self, call: &RuntimeCallShape) -> (r: Result<(), MortalityViolation>)
        ensures
            r == spec_shield_era_check(self.0, spec_contains_shield_submit(*call, 0)),
    {
        ensure_shield_submit_mortal_era(self.0, call)
    }
}

/// The first privacy violation of `call` at nesting `depth`, if any: a Qubitum call outside a
/// shielded envelope, a `store_encrypted` call, or nesting too deep to inspect.
pub open spec fn spec_privacy_violation(call: RuntimeCallShape, depth: int) -> Option<
    ShieldingViolation,
>
    decreases 8 - depth, 0int,
{
    if depth >= 8 {
        Some(ShieldingViolation::QubitumCallMustBeShielded)
    } else {
        match call {
            RuntimeCallShape::Qubitum => Some(ShieldingViolation::QubitumCallMustBeShielded),
            RuntimeCallShape::UtilityBatch(calls) => spec_first_privacy_violation(
                calls@,
                0,
                depth + 1,
            ),
            RuntimeCallShape::UtilityWrap(inner) => spec_privacy_violation(*inner, depth + 1),
            RuntimeCallShape::UtilityIfElse(main, fallback) => {
                let first = spec_privacy_violation(*main, depth + 1);
                if first is Some {
                    first
                } else {
                    spec_privacy_violation(*fallback, depth + 1)
                }
            },
            RuntimeCallShape::PrivilegedWrap(inner) => spec_privacy_violation(*inner, depth + 1),
            RuntimeCallShape::NotePreimage(preimage) => spec_preimage_privacy_violation(
                preimage,
                depth + 1,
            ),
            RuntimeCallShape::ShieldStoreEncrypted => Some(
                ShieldingViolation::ShieldStoreEncryptedDisabled,
            ),
            _ => None,
        }
    }
}

/// The first privacy violation among `calls` from index `i` on, at nesting `depth`.
pub open spec fn spec_first_privacy_violation(calls: Seq<RuntimeCallShape>, i: int, depth: int) -> Option<
    ShieldingViolation,
>
    decreases 8 - depth, calls.len() - i + 1,
{
    if i < 0 || i >= calls.len() {
        None
    } else {
        let first = spec_privacy_violation(calls[i], depth);
        if first is Some {
            first
        } else {
            spec_first_privacy_violation(calls, i + 1, depth)
        }
    }
}

/// The privacy violation of a noted preimage: that of the call its bytes decode to exactly;
/// bytes that do not decode to a call are not inspected.
pub open spec fn spec_preimage_privacy_violation(preimage: PreimageDecoding, depth: int) -> Option<
    ShieldingViolation,
>
    decreases 8 - depth, 2int,
{
    match preimage.exact {
        Some(call) => spec_privacy_violation(*call, depth),
        None => None,
    }
}

/// Scans `call` for Qubitum calls that bypass the shield and for `store_encrypted` calls.
pub fn privacy_violation_at_depth(call: &RuntimeCallShape, depth: u8) -> (r: Option<
    ShieldingViolation,
>)
    ensures
        r == spec_privacy_violation(*call, depth as int),
    decreases 8 - depth, 1int,
{
    if depth >= MAX_CALL_SCAN_DEPTH {
        return Some(ShieldingViolation::QubitumCallMustBeShielded);
    }
    match call {
        RuntimeCallShape::Qubitum => Some(ShieldingViolation::QubitumCallMustBeShielded),
        RuntimeCallShape::UtilityBatch(calls) => {
            let mut i: usize = calls.len();
            let mut found: Option<ShieldingViolation> = None;
            while i > 0
                invariant
                    0 <= i <= calls@.len(),
                    depth < 8,
                    found == spec_first_privacy_violation(calls@, i as int, depth + 1),
                decreases i,
            {
                i = i - 1;
                let here = privacy_violation_at_depth(&calls[i], depth + 1);
                if here.is_some() {
                    found = here;
                }
            }
            found
        },
        RuntimeCallShape::UtilityWrap(inner) => privacy_violation_at_depth(inner, depth + 1),
        RuntimeCallShape::UtilityIfElse(main, fallback) => {
            let first = privacy_violation_at_depth(main, depth + 1);
            if first.is_some() {
                first
            } else {
                privacy_violation_at_depth(fallback, depth + 1)
            }
        },
        RuntimeCallShape::PrivilegedWrap(inner) => privacy_violation_at_depth(inner, depth + 1),
        RuntimeCallShape::NotePreimage(preimage) => encoded_bytes_privacy_violation(
            preimage,
            depth + 1,
        ),
        RuntimeCallShape::ShieldStoreEncrypted => Some(
            ShieldingViolation::ShieldStoreEncryptedDisabled,
        ),
        _ => None,
    }
}

/// Scans the call a noted preimage decodes to; undecodable bytes are not inspected.
pub fn encoded_bytes_privacy_violation(preimage: &PreimageDecoding, depth: u8) -> (r: Option<
    ShieldingViolation,
>)
    ensures
        r == spec_preimage_privacy_violation(*preimage, depth as int),
    decreases 8 - depth, 2int,
{
    match &preimage.exact {
        Some(call) => privacy_violation_at_depth(call, depth),
        None => None,
    }
}

/// The transaction extension that keeps Qubitum calls inside shielded envelopes.
#[derive(Clone, Copy, Debug, Default, PartialEq, Eq)]
pub struct CheckQubitumShielding;

impl CheckQubitumShielding {
    /// The extension.
    pub fn new() -> (r: Self)
        ensures
            r == CheckQubitumShielding,
    {
        CheckQubitumShielding
    }

    /// The privacy violation of a transaction's call, if any.
    pub fn privacy_violation(call: &RuntimeCallShape) -> (r: Option<ShieldingViolation>)
        ensures
            r == spec_privacy_violation(*call, 0),
    {
        privacy_violation_at_depth(call, 0)
    }

    /// Refuses a transaction whose call has a privacy violation.
    pub fn validate(&self, call: &RuntimeCallShape) -> (r: Result<(), ShieldingViolation>)
        ensures
            r == match spec_privacy_violation(*call, 0) {
                Some(v) => Err(v),
                None => Ok(()),
            },
    {
        match Self::privacy_violation(call) {
            Some(v) => Err(v),
            None => Ok(()),
        }
    }
}

/// Whether `call` at nesting `depth` carries a shield call through utility wrappers (or nests
/// too deep to tell).
pub open spec fn spec_contains_recursive_shield_call(call: RuntimeCallShape, depth: int) -> bool
    decreases 8 - depth, 0int,
{
    if depth >= 8 {
        true
    } else {
        match call {
            RuntimeCallShape::ShieldSubmitEncrypted | RuntimeCallShape::ShieldStoreEncrypted => true,
            RuntimeCallShape::UtilityBatch(calls) => spec_any_recursive_shield_call(
                calls@,
                0,
                depth + 1,
            ),
            RuntimeCallShape::UtilityWrap(inner) => spec_contains_recursive_shield_call(
                *inner,
                depth + 1,
            ),
            RuntimeCallShape::UtilityIfElse(main, fallback) => spec_contains_recursive_shield_call(
                *main,
                depth + 1,
            ) || spec_contains_recursive_shield_call(*fallback, depth + 1),
            _ => false,
        }
    }
}

/// Whether some call of `calls` from index `i` on carries a shield call through utility
/// wrappers.
pub open spec fn spec_any_recursive_shield_call(calls: Seq<RuntimeCallShape>, i: int, depth: int) -> bool
    decreases 8 - depth, calls.len() - i + 1,
{
    if i < 0 || i >= calls.len() {
        false
    } else {
        spec_contains_recursive_shield_call(calls[i], depth) || spec_any_recursive_shield_call(
            calls,
            i + 1,
            depth,
        )
    }
}

/// Whether `call` carries a shield call nested through utility wrappers.
pub fn contains_recursive_shield_call(call: &RuntimeCallShape, depth: u8) -> (r: bool)
    ensures
        r == spec_contains_recursive_shield_call(*call, depth as int),
    decreases 8 - depth,
{
    if depth >= MAX_CALL_SCAN_DEPTH {
        return true;
    }
    match call {
        RuntimeCallShape::ShieldSubmitEncrypted | RuntimeCallShape::ShieldStoreEncrypted => true,
        RuntimeCallShape::UtilityBatch(calls) => {
            let mut i: usize = calls.len();
            let mut found = false;
            while i > 0
                invariant
                    0 <= i <= calls@.len(),
                    depth < 8,
                    found == spec_any_recursive_shield_call(calls@, i as int, depth + 1),
                decreases i,
            {
                i = i - 1;
                if contains_recursive_shield_call(&calls[i], depth + 1) {
                    found = true;
                }
            }
            found
        },
        RuntimeCallShape::UtilityWrap(inner) => contains_recursive_shield_call(inner, depth + 1),
        RuntimeCallShape::UtilityIfElse(main, fallback) => contains_recursive_shield_call(
            main,
            depth + 1,
        ) || contains_recursive_shield_call(fallback, depth + 1),
        _ => false,
    }
}

/// The shield queue's call filter: it admits calls that carry no shield call.
#[derive(Clone, Copy, Debug, Default, PartialEq, Eq)]
pub struct MockQueueCallFilter;

impl MockQueueCallFilter {
    /// Whether the queue admits `call`.
    pub fn contains(call: &RuntimeCallShape) -> (r: bool)
        ensures
            r == !spec_contains_recursive_shield_call(*call, 0),
    {
        !contains_recursive_shield_call(call, 0)
    }
}

/// The scans fail closed: at the depth bound every call counts as carrying a shield call and as
/// a privacy violation, and no wrapper hides what the call it wraps carries.
pub proof fn lemma_scans_fail_closed(call: RuntimeCallShape, depth: int)
    ensures
        depth >= MAX_CALL_SCAN_DEPTH ==> spec_contains_shield_submit(call, depth)
            && spec_privacy_violation(call, depth) == Some(
            ShieldingViolation::QubitumCallMustBeShielded,
        ) && spec_contains_recursive_shield_call(call, depth),
        0 <= depth < MAX_CALL_SCAN_DEPTH ==> {
            &&& spec_contains_shield_submit(call, depth + 1) ==> spec_contains_shield_submit(
                RuntimeCallShape::PrivilegedWrap(Box::new(call)),
                depth,
            ) && spec_contains_shield_submit(
                RuntimeCallShape::UtilityWrap(Box::new(call)),
                depth,
            )
            &&& spec_privacy_violation(call, depth + 1) is Some ==> spec_privacy_violation(
                RuntimeCallShape::PrivilegedWrap(Box::new(call)),
                depth,
            ) is Some && spec_privacy_violation(
                RuntimeCallShape::UtilityWrap(Box::new(call)),
                depth,
            ) is Some
        },
{
}

/// Below the depth bound the scans see each call for what it is: a bare Qubitum call is a
/// privacy violation, `store_encrypted` is refused, `submit_encrypted` is the shielded envelope
/// (no violation) and is what the era and queue scans look for, and other calls carry nothing.
pub proof fn lemma_scans_classify_calls(depth: int)
    requires
        0 <= depth < MAX_CALL_SCAN_DEPTH,
    ensures
        spec_privacy_violation(RuntimeCallShape::Qubitum, depth) == Some(
            ShieldingViolation::QubitumCallMustBeShielded,
        ),
        spec_privacy_violation(RuntimeCallShape::ShieldStoreEncrypted, depth) == Some(
            ShieldingViolation::ShieldStoreEncryptedDisabled,
        ),
        spec_privacy_violation(RuntimeCallShape::ShieldSubmitEncrypted, depth) is None,
        spec_privacy_violation(RuntimeCallShape::Other, depth) is None,
        spec_contains_shield_submit(RuntimeCallShape::ShieldSubmitEncrypted, depth),
        !spec_contains_shield_submit(RuntimeCallShape::Qubitum, depth),
        !spec_contains_shield_submit(RuntimeCallShape::ShieldStoreEncrypted, depth),
        !spec_contains_shield_submit(RuntimeCallShape::Other, depth),
        spec_contains_recursive_shield_call(RuntimeCallShape::ShieldSubmitEncrypted, depth),
        spec_contains_recursive_shield_call(RuntimeCallShape::ShieldStoreEncrypted, depth),
        !spec_contains_recursive_shield_call(RuntimeCallShape::Qubitum, depth),
        !spec_contains_recursive_shield_call(RuntimeCallShape::Other, depth),
{
}

/// A violation in any call of a batch, from position `i` on, is found by the scan.
pub proof fn lemma_batch_violation_found(calls: Seq<RuntimeCallShape>, i: int, k: int, depth: int)
    requires
        0 <= i <= k < calls.len(),
        spec_privacy_violation(calls[k], depth) is Some,
    ensures
        spec_first_privacy_violation(calls, i, depth) is Some,
    decreases k - i,
{
    if i < k {
        lemma_batch_violation_found(calls, i + 1, k, depth);
    }
}

/// A `submit_encrypted` carried by any call of a batch, from position `i` on, is found.
pub proof fn lemma_batch_shield_submit_found(calls: Seq<RuntimeCallShape>, i: int, k: int, depth: int)
    requires
        0 <= i <= k < calls.len(),
        spec_contains_shield_submit(calls[k], depth),
    ensures
        spec_any_contains_shield_submit(calls, i, depth),
    decreases k - i,
{
    if i < k {
        lemma_batch_shield_submit_found(calls, i + 1, k, depth);
    }
}

/// A shield call carried by any call of a batch, from position `i` on, is found.
pub proof fn lemma_batch_shield_call_found(calls: Seq<RuntimeCallShape>, i: int, k: int, depth: int)
    requires
        0 <= i <= k < calls.len(),
        spec_contains_recursive_shield_call(calls[k], depth),
    ensures
        spec_any_recursive_shield_call(calls, i, depth),
    decreases k - i,
{
    if i < k {
        lemma_batch_shield_call_found(calls, i + 1, k, depth);
    }
}

/// No batch hides what one of its calls carries: a batch with a violating call is a
/// violation, and a batch with a call carrying `submit_encrypted` or a shield call carries it.
pub proof fn lemma_batches_hide_nothing(calls: Vec<RuntimeCallShape>, k: int, depth: int)
    requires
        0 <= depth < MAX_CALL_SCAN_DEPTH,
        0 <= k < calls@.len(),
    ensures
        spec_privacy_violation(calls@[k], depth + 1) is Some ==> spec_privacy_violation(
            RuntimeCallShape::UtilityBatch(calls),
            depth,
        ) is Some,
        spec_contains_shield_submit(calls@[k], depth + 1) ==> spec_contains_shield_submit(
            RuntimeCallShape::UtilityBatch(calls),
            depth,
        ),
        spec_contains_recursive_shield_call(calls@[k], depth + 1) ==> spec_contains_recursive_shield_call(
            RuntimeCallShape::UtilityBatch(calls),
            depth,
        ),
{
    if spec_privacy_violation(calls@[k], depth + 1) is Some {
        lemma_batch_violation_found(calls@, 0, k, depth + 1);
    }
    if spec_contains_shield_submit(calls@[k], depth + 1) {
        lemma_batch_shield_submit_found(calls@, 0, k, depth + 1);
    }
    if spec_contains_recursive_shield_call(calls@[k], depth + 1) {
        lemma_batch_shield_call_found(calls@, 0, k, depth + 1);
    }
}

/// A transaction carrying `submit_encrypted` passes the mortality rule exactly when its era
/// is mortal with a period of at most `MAX_SHIELD_ERA_PERIOD` blocks; one that carries none
/// always passes.
pub proof fn lemma_shield_era_rule(era: TransactionEra, carries_shield_submit: bool)
    ensures
        !carries_shield_submit ==> spec_shield_era_check(era, carries_shield_submit) is Ok,
        carries_shield_submit ==> (spec_shield_era_check(era, carries_shield_submit) is Ok <==> (era matches TransactionEra::Mortal(
            period,
            _,
        ) && period <= MAX_SHIELD_ERA_PERIOD)),
{
}

} // verus!
