//! Global guarantees of the registry that relate several operations.
//!
//! Each law is stated over the step relations that the registry's
//! operations promise in their contracts ([`publish_step`], [`renew_step`],
//! [`expire_step`]), so it covers every execution those contracts allow —
//! in particular every serialisation of concurrent calls under the
//! registry's critical section. The bijection law, which speaks about a
//! single well-formed state, lives next to the invariant in [`crate::registry`].

use vstd::prelude::*;

use crate::object::ObjectEntry;
use crate::registry::{
    expire_step, publish_step, renew_outcome, renew_step, spec_lookup, ObjectRegistry,
    PublishReceipt, RenewReceipt, ServerError,
};

verus! {

/// A run of publishes: `states[0]` is the starting registry and the n-th
/// publish takes `states[n]` to `states[n + 1]`, returning `receipts[n]`
/// for `entries[n]`.
pub open spec fn publish_chain(
    states: Seq<ObjectRegistry>,
    receipts: Seq<PublishReceipt>,
    entries: Seq<ObjectEntry>,
) -> bool {
    &&& states.len() == receipts.len() + 1
    &&& entries.len() == receipts.len()
    &&& forall|n: int|
        0 <= n < receipts.len() ==> #[trigger] publish_step(
            states[n],
            states[n + 1],
            receipts[n],
            entries[n],
        )
}

/// Along a run of publishes, a live identifier and a live keep-alive key
/// stay live: publishing never removes a binding.
proof fn lemma_publish_chain_monotone(
    states: Seq<ObjectRegistry>,
    receipts: Seq<PublishReceipt>,
    entries: Seq<ObjectEntry>,
    from: int,
    to: int,
    id: Seq<char>,
    key: Seq<char>,
)
    requires
        publish_chain(states, receipts, entries),
        0 <= from <= to < states.len(),
        states[from].objects_map().dom().contains(id),
        states[from].leases_map().dom().contains(key),
    ensures
        states[to].objects_map().dom().contains(id),
        states[to].leases_map().dom().contains(key),
    decreases to - from,
{
    if from < to {
        assert(publish_step(states[from], states[from + 1], receipts[from], entries[from]));
        lemma_publish_chain_monotone(states, receipts, entries, from + 1, to, id, key);
    }
}

/// Uniqueness: across any run of publishes — and so across any
/// serialisation of concurrent publish calls — the returned identifiers
/// are pairwise distinct, and so are the returned keep-alive keys.
pub proof fn lemma_publish_uniqueness(
    states: Seq<ObjectRegistry>,
    receipts: Seq<PublishReceipt>,
    entries: Seq<ObjectEntry>,
    a: int,
    b: int,
)
    requires
        publish_chain(states, receipts, entries),
        0 <= a < b < receipts.len(),
    ensures
        receipts[a].registration.id@ != receipts[b].registration.id@,
        receipts[a].registration.keep_alive_key@ != receipts[b].registration.keep_alive_key@,
{
    assert(publish_step(states[a], states[a + 1], receipts[a], entries[a]));
    assert(publish_step(states[b], states[b + 1], receipts[b], entries[b]));
    lemma_publish_chain_monotone(
        states,
        receipts,
        entries,
        a + 1,
        b,
        receipts[a].registration.id@,
        receipts[a].registration.keep_alive_key@,
    );
}

/// Lease renewal extends lifetime: publish an object, renew its lease
/// before the original expiry fires, and the original firing — now stale —
/// leaves the object untouched; the object leaves the registry only when
/// the expiry armed by the renewal fires, a full timeout later.
pub proof fn lemma_renewal_extends_lifetime(
    s0: ObjectRegistry,
    s1: ObjectRegistry,
    s2: ObjectRegistry,
    s3: ObjectRegistry,
    s4: ObjectRegistry,
    receipt: PublishReceipt,
    renewal: RenewReceipt,
    entry: ObjectEntry,
    fired_stale: bool,
    fired_fresh: bool,
)
    requires
        publish_step(s0, s1, receipt, entry),
        renew_step(s1, s2, receipt.registration.keep_alive_key@, renewal),
        expire_step(
            s2,
            s3,
            receipt.registration.keep_alive_key@,
            receipt.armed_timer,
            fired_stale,
        ),
        expire_step(
            s3,
            s4,
            receipt.registration.keep_alive_key@,
            renewal.armed_timer,
            fired_fresh,
        ),
    ensures
        renewal.cancelled_timer == receipt.armed_timer,
        !fired_stale,
        s3 == s2,
        s3.objects_map().dom().contains(receipt.registration.id@),
        fired_fresh,
        !s4.objects_map().dom().contains(receipt.registration.id@),
{
    let key = receipt.registration.keep_alive_key@;
    let id = receipt.registration.id@;
    assert(s1.leases_map()[key].timer == receipt.armed_timer);
    assert(s2.leases_map()[key].timer == renewal.armed_timer);
    assert(renewal.armed_timer != receipt.armed_timer);
    assert(!fired_stale);
    assert(s2.objects_map().dom().contains(id));
    assert(s3.leases_map()[key].object_id@ == id);
    assert(s4.objects_map() == s3.objects_map().remove(id));
}

/// Idempotent failure on unknown identifiers: looking up an identifier
/// that is not live fails with `UnknownObject`, and since a lookup cannot
/// change the registry, repeating it any number of times returns the very
/// same failure. The renewal half of the same guarantee is
/// [`lemma_unknown_key_renewals_fail_identically`].
pub proof fn lemma_unknown_lookup_fails_idempotently(r: ObjectRegistry, id: Seq<char>)
    requires
        !r.objects_map().dom().contains(id),
    ensures
        spec_lookup(r, id) == Err::<ObjectEntry, ServerError>(ServerError::UnknownObject),
{
}

/// Idempotent failure on unknown keys, renewal half: renewing with a
/// keep-alive key that is not live — for instance a random token this
/// registry never issued — fails with `UnknownKeepAliveKey`, and however
/// often the attempt is repeated, every attempt fails the same way and the
/// registry (both tables and every armed timer) is exactly as it started.
/// `states[0]` is the starting registry and the m-th attempt takes
/// `states[m]` to `states[m + 1]` returning `results[m]`.
pub proof fn lemma_unknown_key_renewals_fail_identically(
    states: Seq<ObjectRegistry>,
    results: Seq<Result<RenewReceipt, ServerError>>,
    key: Seq<char>,
    n: int,
)
    requires
        states.len() == results.len() + 1,
        !states[0].leases_map().dom().contains(key),
        forall|m: int|
            0 <= m < results.len() ==> #[trigger] renew_outcome(
                states[m],
                states[m + 1],
                key,
                results[m],
            ),
        0 <= n < results.len(),
    ensures
        states[n] == states[0],
        results[n] == Err::<RenewReceipt, ServerError>(ServerError::UnknownKeepAliveKey),
        states[n + 1] == states[0],
    decreases n,
{
    if n > 0 {
        lemma_unknown_key_renewals_fail_identically(states, results, key, n - 1);
    }
    assert(renew_outcome(states[n], states[n + 1], key, results[n]));
    // The key is not live in states[n], so a successful renewal — which
    // requires a live key — is impossible there.
    if results[n] is Ok {
        assert(states[n].leases_map().dom().contains(key));
        assert(false);
    }
}

/// No double deletion: an expiry firing removes exactly its own
/// (identifier, lease) pair, and a second firing for the same pair — a
/// stale timer that lost a cancellation race — is a no-op; neither is an
/// error.
pub proof fn lemma_no_double_deletion(
    s0: ObjectRegistry,
    s1: ObjectRegistry,
    s2: ObjectRegistry,
    key: Seq<char>,
    timer: u64,
    fired0: bool,
    fired1: bool,
)
    requires
        s0.leases_map().dom().contains(key),
        s0.leases_map()[key].timer == timer,
        expire_step(s0, s1, key, timer, fired0),
        expire_step(s1, s2, key, timer, fired1),
    ensures
        fired0,
        s1.objects_map() == s0.objects_map().remove(s0.leases_map()[key].object_id@),
        s1.leases_map() == s0.leases_map().remove(key),
        !fired1,
        s2 == s1,
{
    assert(!s1.leases_map().dom().contains(key));
}

} // verus!
